//! Coverage gap analysis.
//!
//! Finds the lines, sub-line regions and branches that no test reached, and
//! folds runs of consecutive uncovered lines into ranges.

use std::collections::{BTreeMap, BTreeSet};
use vstd::prelude::*;
use vstd::std_specs::iter::IteratorSpec;

use crate::ascending::{lemma_increasing_is_ascending, strictly_ascending};
use crate::model::{
    counter_view, Branch, CoverageCounts, CoverageCountsView, CoverageExport, CoverageExportView,
    ExportDataView, FileData, FileDataView, Percent, Segment, Summary, SummaryView,
};
use crate::ranges::{
    collapses, is_range, lemma_collapse_is_unique, lemma_line_ranges_fold, lemma_one_more_range,
    line_ranges, range_end, range_holds, range_start, ranges_hold,
};
use crate::spans::{
    fully_uncovered, lemma_no_segments_no_gaps, lemma_one_more_segment,
    lemma_region_line_in_no_range, lit, marked, records, region_gaps, region_line, region_shows,
    span_end_line, spans, touched, uncovered_lines, zero_regions,
};
use crate::views::views;

verus! {

/// A coverage gap found during analysis.
#[derive(Debug, Clone, Copy, PartialEq, Eq)]
pub enum CoverageGap {
    /// One or more consecutive fully-uncovered lines.
    UncoveredLines {
        /// First uncovered line (1-based).
        start_line: u64,
        /// Last uncovered line (1-based, inclusive).
        end_line: u64,
    },
    /// An uncovered region on a partially-covered line.
    UncoveredRegion {
        /// Start line.
        line_start: u64,
        /// Start column.
        col_start: u64,
        /// End line.
        line_end: u64,
        /// End column.
        col_end: u64,
    },
    /// A branch where one direction was never taken.
    UncoveredBranch {
        /// Line where the branch occurs.
        line: u64,
        /// Column where the branch occurs.
        col: u64,
        /// Number of times the true branch was taken.
        true_count: u64,
        /// Number of times the false branch was taken.
        false_count: u64,
    },
}

/// Per-file coverage gap results.
#[derive(Debug, Clone, PartialEq, Eq)]
pub struct FileGaps {
    /// File path as it appears in the coverage data.
    pub filename: String,
    /// Coverage gaps found in this file: line ranges first, then regions,
    /// then branches.
    pub gaps: Vec<CoverageGap>,
}

/// The view of `FileGaps`.
pub ghost struct FileGapsView {
    pub filename: Seq<char>,
    pub gaps: Seq<CoverageGap>,
}

impl View for FileGaps {
    type V = FileGapsView;

    open spec fn view(&self) -> FileGapsView {
        FileGapsView { filename: self.filename@, gaps: self.gaps@ }
    }
}

/// Summary coverage percentages.
#[derive(Debug, Clone, PartialEq, Eq)]
pub struct CoverageSummary {
    /// Line coverage percentage.
    pub lines_percent: Percent,
    /// Region coverage percentage.
    pub regions_percent: Percent,
    /// Branch coverage percentage, if branch data is present.
    pub branches_percent: Option<Percent>,
    /// Function coverage percentage.
    pub functions_percent: Percent,
}

/// The view of `CoverageSummary`.
pub ghost struct CoverageSummaryView {
    pub lines_percent: Seq<char>,
    pub regions_percent: Seq<char>,
    pub branches_percent: Option<Seq<char>>,
    pub functions_percent: Seq<char>,
}

impl View for CoverageSummary {
    type V = CoverageSummaryView;

    open spec fn view(&self) -> CoverageSummaryView {
        CoverageSummaryView {
            lines_percent: self.lines_percent@,
            regions_percent: self.regions_percent@,
            branches_percent: match self.branches_percent {
                Some(percent) => Some(percent@),
                None => None,
            },
            functions_percent: self.functions_percent@,
        }
    }
}

/// Complete analysis result.
#[derive(Debug, Clone, PartialEq, Eq)]
pub struct AnalysisResult {
    /// Per-file coverage gaps (only files with gaps are included).
    pub files: Vec<FileGaps>,
    /// Overall coverage summary.
    pub summary: CoverageSummary,
}

/// The view of `AnalysisResult`.
pub ghost struct AnalysisResultView {
    pub files: Seq<FileGapsView>,
    pub summary: CoverageSummaryView,
}

impl View for AnalysisResult {
    type V = AnalysisResultView;

    open spec fn view(&self) -> AnalysisResultView {
        AnalysisResultView { files: views(self.files@), summary: self.summary@ }
    }
}

/// Errors that can occur during analysis.
#[derive(Debug, Clone, Copy, PartialEq, Eq)]
pub enum AnalysisError {
    /// The coverage data array is empty.
    EmptyData,
}

impl AnalysisError {
    /// What went wrong, in words.
    pub fn message(&self) -> (text: String)
        ensures
            text@ == "coverage data is empty (no data entries)"@,
    {
        String::from_str("coverage data is empty (no data entries)")
    }
}

/// Whether one side of a branch was never taken.
pub open spec fn is_one_sided(branch: Branch) -> bool {
    branch.true_count == 0 || branch.false_count == 0
}

/// A branch as a gap: where it starts, and both counts.
pub open spec fn branch_gap(branch: Branch) -> CoverageGap {
    CoverageGap::UncoveredBranch {
        line: branch.line_start,
        col: branch.col_start,
        true_count: branch.true_count,
        false_count: branch.false_count,
    }
}

/// The gaps of the branches of which one side was never taken, in the
/// branches' order.
pub open spec fn branch_gaps(branches: Seq<Branch>) -> Seq<CoverageGap> {
    branches.filter(|branch: Branch| is_one_sided(branch)).map_values(
        |branch: Branch| branch_gap(branch),
    )
}

/// The gaps of a file: line ranges, then regions, then branches.
pub open spec fn file_gaps(file: FileDataView) -> Seq<CoverageGap> {
    line_ranges(uncovered_lines(file.segments)) + region_gaps(file.segments) + branch_gaps(
        file.branches,
    )
}

/// The gaps of those of the first `count` files that have any, in the
/// files' order.
pub open spec fn files_with_gaps(files: Seq<FileDataView>, count: int) -> Seq<FileGapsView>
    decreases count,
{
    if count <= 0 {
        Seq::empty()
    } else if file_gaps(files[count - 1]).len() > 0 {
        files_with_gaps(files, count - 1).push(
            FileGapsView {
                filename: files[count - 1].filename,
                gaps: file_gaps(files[count - 1]),
            },
        )
    } else {
        files_with_gaps(files, count - 1)
    }
}

/// The percentage of a counter, or zero where the counter is absent.
pub open spec fn percent_or_zero(counter: Option<CoverageCountsView>) -> Seq<char> {
    match counter {
        Some(counts) => counts.percent,
        None => "0.0"@,
    }
}

/// The percentage of the branch counter, where one is present and counts at
/// least one branch. A counter of no branches is no branch data, not zero
/// percent.
pub open spec fn branches_percent_of(counter: Option<CoverageCountsView>) -> Option<Seq<char>> {
    match counter {
        Some(counts) => if counts.count > 0 {
            Some(counts.percent)
        } else {
            None
        },
        None => None,
    }
}

/// The summary percentages read from an entry's totals.
pub open spec fn summary_of(totals: SummaryView) -> CoverageSummaryView {
    CoverageSummaryView {
        lines_percent: percent_or_zero(totals.lines),
        regions_percent: percent_or_zero(totals.regions),
        branches_percent: branches_percent_of(totals.branches),
        functions_percent: percent_or_zero(totals.functions),
    }
}

/// The analysis of one data entry.
pub open spec fn analysis_of(entry: ExportDataView) -> AnalysisResultView {
    AnalysisResultView {
        files: files_with_gaps(entry.files, entry.files.len() as int),
        summary: summary_of(entry.totals),
    }
}

/// What the analysis of an export gives: the analysis of its first entry, or
/// the error of an export without entries.
pub open spec fn analysis(export: CoverageExportView) -> Result<AnalysisResultView, AnalysisError> {
    if export.data.len() == 0 {
        Err(AnalysisError::EmptyData)
    } else {
        Ok(analysis_of(export.data[0]))
    }
}

/// Analyzes a coverage export and returns all coverage gaps.
///
/// # Errors
///
/// Returns an error if the coverage data is empty.
pub fn analyze(export: &CoverageExport) -> (result: Result<AnalysisResult, AnalysisError>)
    ensures
        match result {
            Ok(found) => analysis(export@) == Ok::<AnalysisResultView, AnalysisError>(found@),
            Err(error) => analysis(export@) == Err::<AnalysisResultView, AnalysisError>(error),
        },
        result is Err <==> export.data@.len() == 0,
        result matches Ok(found) ==> (found.summary.branches_percent is Some <==> (
        export.data@[0].totals.branches matches Some(counts) && counts.count > 0)),
{
    if export.data.len() == 0 {
        return Err(AnalysisError::EmptyData);
    }
    let data = &export.data[0];

    let mut files: Vec<FileGaps> = Vec::new();
    let mut i: usize = 0;
    while i < data.files.len()
        invariant
            i <= data.files.len(),
            views(files@) == files_with_gaps(views(data.files@), i as int),
        decreases data.files.len() - i,
    {
        let file = &data.files[i];
        let gaps = analyze_file(file);
        let ghost before = files@;
        if !gaps.is_empty() {
            files.push(FileGaps { filename: file.filename.clone(), gaps });
            assert(views(files@) == views(before).push(files@[before.len() as int]@));
        }
        i = i + 1;
    }

    let summary = summarize(&data.totals);
    Ok(AnalysisResult { files, summary })
}

/// The summary percentages of an entry's totals.
fn summarize(totals: &Summary) -> (summary: CoverageSummary)
    ensures
        summary@ == summary_of(totals@),
{
    let branches_percent = match &totals.branches {
        Some(counts) => if counts.count > 0 {
            Some(counts.percent.duplicate())
        } else {
            None
        },
        None => None,
    };
    CoverageSummary {
        lines_percent: counter_percent(&totals.lines),
        regions_percent: counter_percent(&totals.regions),
        branches_percent,
        functions_percent: counter_percent(&totals.functions),
    }
}

/// The percentage of a counter, or zero where the counter is absent.
fn counter_percent(counter: &Option<CoverageCounts>) -> (percent: Percent)
    ensures
        percent@ == percent_or_zero(counter_view(*counter)),
{
    match counter {
        Some(counts) => counts.percent.duplicate(),
        None => Percent::zero(),
    }
}

/// Analyzes a single file's coverage data and returns its gaps.
pub fn analyze_file(file: &FileData) -> (gaps: Vec<CoverageGap>)
    ensures
        gaps@ == file_gaps(file@),
{
    let mut gaps: Vec<CoverageGap> = Vec::new();

    if !file.segments.is_empty() {
        let (mut uncovered_lines, mut uncovered_regions) = analyze_segments(
            file.segments.as_slice(),
        );
        gaps.append(&mut uncovered_lines);
        gaps.append(&mut uncovered_regions);
    } else {
        proof {
            lemma_no_segments_no_gaps(file.segments@);
        }
    }
    let ghost from_segments = gaps@;
    assert(from_segments == line_ranges(uncovered_lines(file.segments@)) + region_gaps(
        file.segments@,
    ));

    let ghost one_sided = |branch: Branch| is_one_sided(branch);
    let ghost as_gap = |branch: Branch| branch_gap(branch);
    let mut i: usize = 0;
    assert(file.branches@.take(0).filter(one_sided) == Seq::<Branch>::empty()) by {
        reveal_with_fuel(Seq::filter, 1);
    }
    while i < file.branches.len()
        invariant
            i <= file.branches.len(),
            one_sided == |branch: Branch| is_one_sided(branch),
            as_gap == |branch: Branch| branch_gap(branch),
            gaps@ == from_segments + file.branches@.take(i as int).filter(one_sided).map_values(
                as_gap,
            ),
        decreases file.branches.len() - i,
    {
        let branch = file.branches[i];
        proof {
            let more = file.branches@.take(i + 1);
            assert(more.drop_last() == file.branches@.take(i as int));
            assert(more.last() == branch);
            reveal_with_fuel(Seq::filter, 2);
            let kept = file.branches@.take(i as int).filter(one_sided);
            assert(more.filter(one_sided) == if one_sided(branch) {
                kept.push(branch)
            } else {
                kept
            });
            assert(kept.push(branch).map_values(as_gap) == kept.map_values(as_gap).push(
                branch_gap(branch),
            ));
        }
        if branch.true_count == 0 || branch.false_count == 0 {
            gaps.push(
                CoverageGap::UncoveredBranch {
                    line: branch.line_start,
                    col: branch.col_start,
                    true_count: branch.true_count,
                    false_count: branch.false_count,
                },
            );
        }
        i = i + 1;
    }
    assert(file.branches@.take(file.branches@.len() as int) == file.branches@);
    gaps
}

/// Analyzes segments to find uncovered lines and sub-line regions.
///
/// Returns the line-range gaps and the region gaps, in this order.
pub fn analyze_segments(segments: &[Segment]) -> (gaps: (Vec<CoverageGap>, Vec<CoverageGap>))
    ensures
        collapses(uncovered_lines(segments@), gaps.0@),
        gaps.0@ == line_ranges(uncovered_lines(segments@)),
        gaps.1@ == region_gaps(segments@),
        forall|at: int|
            0 <= at < gaps.1@.len() ==> !ranges_hold(gaps.0@, region_line(#[trigger] gaps.1@[at])),
{
    // Per line, the largest count seen on it; beside it the lines on which
    // some count was above zero, and the spans of the regions never run.
    let mut line_max_count: BTreeMap<u64, u64> = BTreeMap::new();
    let mut lines_with_coverage: BTreeSet<u64> = BTreeSet::new();
    let mut recorded: Vec<CoverageGap> = Vec::new();

    let mut i: usize = 0;
    while i < segments.len()
        invariant
            i <= segments.len(),
            records(line_max_count@, lines_with_coverage@, segments@, i as int, 0),
            recorded@ == zero_regions(segments@, i as int),
        decreases segments.len() - i,
    {
        let seg = segments[i];
        if seg.has_count {
            // The span ends where the next segment starts, or on the spot if
            // this is the last one.
            let (end_line, end_col) = if i + 1 < segments.len() {
                (segments[i + 1].line, segments[i + 1].col)
            } else {
                (seg.line, seg.col)
            };
            assert(end_line == span_end_line(segments@, i as int));

            if seg.line <= end_line {
                let mut line: u64 = seg.line;
                loop
                    invariant_except_break
                        seg.line <= line <= end_line,
                        records(
                            line_max_count@,
                            lines_with_coverage@,
                            segments@,
                            i as int,
                            line as int,
                        ),
                    invariant
                        i < segments.len(),
                        seg == segments@[i as int],
                        seg.has_count,
                        end_line == span_end_line(segments@, i as int),
                    ensures
                        records(
                            line_max_count@,
                            lines_with_coverage@,
                            segments@,
                            i as int,
                            end_line + 1,
                        ),
                    decreases end_line - line,
                {
                    let ghost counts = line_max_count@;
                    let ghost hit = lines_with_coverage@;
                    let seen: u64 = match line_max_count.get(&line) {
                        Some(count) => *count,
                        None => 0,
                    };
                    let largest: u64 = if seen < seg.count {
                        seg.count
                    } else {
                        seen
                    };
                    line_max_count.insert(line, largest);
                    if seg.count > 0 {
                        lines_with_coverage.insert(line);
                    }
                    proof {
                        assert(spans(segments@, i as int, line));
                        assert forall|l: u64|
                            #![trigger line_max_count@.contains_key(l)]
                            #![trigger lines_with_coverage@.contains(l)]
                            #![trigger marked(segments@, i as int, line + 1, l)]
                            #![trigger lit(segments@, i as int, line + 1, l)]
                            {
                                &&& line_max_count@.contains_key(l) <==> marked(
                                    segments@,
                                    i as int,
                                    line + 1,
                                    l,
                                )
                                &&& line_max_count@.contains_key(l) ==> (line_max_count@[l] > 0
                                    <==> lit(segments@, i as int, line + 1, l))
                                &&& lines_with_coverage@.contains(l) <==> lit(
                                    segments@,
                                    i as int,
                                    line + 1,
                                    l,
                                )
                            } by {
                            assert(counts.contains_key(l) <==> marked(
                                segments@,
                                i as int,
                                line as int,
                                l,
                            ));
                            assert(hit.contains(l) <==> lit(segments@, i as int, line as int, l));
                        }
                    }
                    if line == end_line {
                        break ;
                    }
                    line = line + 1;
                }
            }
            if seg.is_region_entry && seg.count == 0 {
                recorded.push(
                    CoverageGap::UncoveredRegion {
                        line_start: seg.line,
                        col_start: seg.col,
                        line_end: end_line,
                        col_end: end_col,
                    },
                );
            }
        }
        proof {
            let ghost reach: int = if seg.has_count && seg.line <= span_end_line(
                segments@,
                i as int,
            ) {
                span_end_line(segments@, i as int) + 1
            } else {
                0
            };
            assert(records(line_max_count@, lines_with_coverage@, segments@, i as int, reach));
            assert forall|l: u64|
                #![trigger line_max_count@.contains_key(l)]
                #![trigger lines_with_coverage@.contains(l)]
                #![trigger marked(segments@, i + 1, 0, l)]
                #![trigger lit(segments@, i + 1, 0, l)]
                {
                    &&& line_max_count@.contains_key(l) <==> marked(segments@, i + 1, 0, l)
                    &&& line_max_count@.contains_key(l) ==> (line_max_count@[l] > 0 <==> lit(
                        segments@,
                        i + 1,
                        0,
                        l,
                    ))
                    &&& lines_with_coverage@.contains(l) <==> lit(segments@, i + 1, 0, l)
                } by {
                lemma_one_more_segment(segments@, i as int, l);
                assert(line_max_count@.contains_key(l) <==> marked(
                    segments@,
                    i as int,
                    reach,
                    l,
                ));
                assert(lines_with_coverage@.contains(l) <==> lit(segments@, i as int, reach, l));
            }
        }
        i = i + 1;
    }

    // The fully uncovered lines: those spanned whose largest count is zero.
    let uncovered = zero_keys(&line_max_count);
    proof {
        assert forall|l: u64| uncovered@.contains(l) <==> fully_uncovered(segments@, l) by {
            assert(line_max_count@.contains_key(l) <==> marked(
                segments@,
                segments@.len() as int,
                0,
                l,
            ));
            assert(lines_with_coverage@.contains(l) <==> lit(
                segments@,
                segments@.len() as int,
                0,
                l,
            ));
        }
        assert(uncovered@ =~= uncovered_lines(segments@));
    }
    let line_gaps = collapse_lines(&uncovered);

    // A region shows only on a line that is covered in part: a line that is
    // fully uncovered is reported as such already.
    let mut shown: Vec<CoverageGap> = Vec::new();
    let mut k: usize = 0;
    while k < recorded.len()
        invariant
            k <= recorded.len(),
            recorded@ == zero_regions(segments@, segments@.len() as int),
            uncovered@ == uncovered_lines(segments@),
            forall|l: u64| lines_with_coverage@.contains(l) <==> touched(segments@, l),
            shown@ == recorded@.take(k as int).filter(
                |gap: CoverageGap| region_shows(segments@, gap),
            ),
        decreases recorded.len() - k,
    {
        let gap = recorded[k];
        let shows = match gap {
            CoverageGap::UncoveredRegion { line_start, .. } => !uncovered.contains(&line_start)
                && lines_with_coverage.contains(&line_start),
            _ => !uncovered.contains(&0) && lines_with_coverage.contains(&0),
        };
        assert(shows == region_shows(segments@, gap));
        if shows {
            shown.push(gap);
        }
        proof {
            let keep = |gap: CoverageGap| region_shows(segments@, gap);
            let more = recorded@.take(k + 1);
            assert(more.drop_last() == recorded@.take(k as int));
            assert(more.last() == gap);
            reveal_with_fuel(Seq::filter, 2);
            assert(more.filter(keep) == if keep(gap) {
                recorded@.take(k as int).filter(keep).push(gap)
            } else {
                recorded@.take(k as int).filter(keep)
            });
        }
        k = k + 1;
    }
    assert(recorded@.take(recorded@.len() as int) == recorded@);
    proof {
        assert forall|at: int| 0 <= at < shown@.len() implies !ranges_hold(
            line_gaps@,
            region_line(#[trigger] shown@[at]),
        ) by {
            lemma_region_line_in_no_range(segments@, at);
        }
    }
    (line_gaps, shown)
}

/// The keys of `counts` whose count is zero.
fn zero_keys(counts: &BTreeMap<u64, u64>) -> (keys: BTreeSet<u64>)
    ensures
        forall|key: u64| keys@.contains(key) <==> counts@.contains_key(key) && counts@[key] == 0,
{
    let mut keys: BTreeSet<u64> = BTreeSet::new();
    let ghost all = counts.iter().remaining();
    let ghost mut done: int = 0;
    for entry in it: counts.iter()
        invariant
            it.seq() == all,
            done == it.index(),
            0 <= done <= all.len(),
            forall|i: int|
                0 <= i < all.len() ==> counts@.contains_key(*(#[trigger] all[i]).0)
                    && counts@[*all[i].0] == *all[i].1,
            forall|key: u64|
                counts@.contains_key(key) ==> exists|i: int|
                    0 <= i < all.len() && *(#[trigger] all[i]).0 == key,
            forall|key: u64|
                keys@.contains(key) <==> exists|i: int|
                    0 <= i < done && *(#[trigger] all[i]).0 == key && *all[i].1 == 0,
    {
        let (line, count) = entry;
        let ghost before = keys@;
        if *count == 0 {
            keys.insert(*line);
        }
        proof {
            assert forall|key: u64|
                keys@.contains(key) <==> exists|i: int|
                    0 <= i < done + 1 && *(#[trigger] all[i]).0 == key && *all[i].1 == 0 by {
                if before.contains(key) {
                    let i = choose|i: int|
                        0 <= i < done && *(#[trigger] all[i]).0 == key && *all[i].1 == 0;
                    assert(0 <= i < done + 1 && *all[i].0 == key && *all[i].1 == 0);
                }
                if exists|i: int|
                    0 <= i < done + 1 && *(#[trigger] all[i]).0 == key && *all[i].1 == 0 {
                    let i = choose|i: int|
                        0 <= i < done + 1 && *(#[trigger] all[i]).0 == key && *all[i].1 == 0;
                    if i < done {
                        assert(before.contains(key));
                    }
                }
                if *count == 0 && key == *line {
                    assert(*all[done].0 == key && *all[done].1 == 0);
                }
            }
            done = done + 1;
        }
    }
    proof {
        assert(done == all.len());
        assert forall|key: u64|
            keys@.contains(key) <==> counts@.contains_key(key) && counts@[key] == 0 by {
            if counts@.contains_key(key) && counts@[key] == 0 {
                let i = choose|i: int| 0 <= i < all.len() && *(#[trigger] all[i]).0 == key;
                assert(*all[i].1 == 0);
            }
        }
    }
    keys
}

/// Collapses a set of line numbers into ranges of consecutive lines.
pub fn collapse_lines(lines: &BTreeSet<u64>) -> (gaps: Vec<CoverageGap>)
    ensures
        collapses(lines@, gaps@),
        gaps@ == line_ranges(lines@),
        lines@ =~= Set::<u64>::empty() ==> gaps@.len() == 0,
{
    let mut gaps: Vec<CoverageGap> = Vec::new();
    let mut run: Option<(u64, u64)> = None;
    let ghost all: Seq<u64> = lines.iter().remaining().unref();
    let ghost mut done: int = 0;
    proof {
        lemma_increasing_is_ascending(lines.iter().remaining());
    }
    for line in it: lines.iter()
        invariant
            it.seq().unref() == all,
            done == it.index(),
            0 <= done <= all.len(),
            all.to_set() == lines@,
            strictly_ascending(all),
            run is None <==> done == 0,
            run is None ==> gaps@.len() == 0,
            run matches Some((start, end)) ==> start <= end && end == all[done - 1],
            forall|i: int| 0 <= i < gaps@.len() ==> is_range(#[trigger] gaps@[i]),
            forall|i: int, j: int|
                0 <= i < j < gaps@.len() ==> range_end(#[trigger] gaps@[i]) + 1 < range_start(
                    #[trigger] gaps@[j],
                ),
            forall|i: int|
                0 <= i < gaps@.len() ==> (run matches Some((start, end)) ==> range_end(
                    #[trigger] gaps@[i],
                ) + 1 < start),
            forall|l: u64|
                #![trigger among_first(all, done, l)]
                #![trigger ranges_hold(gaps@, l)]
                #![trigger in_run(run, l)]
                among_first(all, done, l) <==> ranges_hold(gaps@, l) || in_run(run, l),
    {
        let line: u64 = *line;
        let ghost before = gaps@;
        let ghost open = run;
        assert(all[done] == line);
        match run {
            None => {
                run = Some((line, line));
            },
            Some((start, end)) => {
                assert(all[done - 1] < all[done]);
                if line == end + 1 {
                    run = Some((start, line));
                } else {
                    gaps.push(CoverageGap::UncoveredLines { start_line: start, end_line: end });
                    run = Some((line, line));
                }
            },
        }
        proof {
            assert forall|l: u64|
                #![trigger among_first(all, done + 1, l)]
                #![trigger ranges_hold(gaps@, l)]
                #![trigger in_run(run, l)]
                among_first(all, done + 1, l) <==> ranges_hold(gaps@, l) || in_run(run, l) by {
                lemma_one_more_line(all, done, l);
                assert(among_first(all, done, l) <==> ranges_hold(before, l) || in_run(open, l));
                if gaps@.len() > before.len() {
                    lemma_one_more_range(before, gaps@[before.len() as int], l);
                    assert(gaps@ == before.push(gaps@[before.len() as int]));
                }
            }
            done = done + 1;
        }
    }
    let ghost before = gaps@;
    match run {
        None => {},
        Some((start, end)) => {
            gaps.push(CoverageGap::UncoveredLines { start_line: start, end_line: end });
        },
    }
    proof {
        assert(done == all.len());
        assert forall|l: u64| lines@.contains(l) <==> ranges_hold(gaps@, l) by {
            assert(lines@.contains(l) <==> all.contains(l));
            assert(all.contains(l) <==> among_first(all, done, l));
            assert(among_first(all, done, l) <==> ranges_hold(before, l) || in_run(run, l));
            if gaps@.len() > before.len() {
                lemma_one_more_range(before, gaps@[before.len() as int], l);
                assert(gaps@ == before.push(gaps@[before.len() as int]));
            }
        }
        lemma_collapse_is_unique(lines@, gaps@, line_ranges(lines@));
        if lines@ =~= Set::<u64>::empty() && gaps@.len() > 0 {
            assert(range_holds(gaps@[0], range_start(gaps@[0])));
            assert(ranges_hold(gaps@, range_start(gaps@[0])));
        }
    }
    gaps
}

/// Whether `line` is among the first `count` items of `lines`.
pub open spec fn among_first(lines: Seq<u64>, count: int, line: u64) -> bool {
    exists|k: int| 0 <= k < count && #[trigger] lines[k] == line
}

/// Whether `line` lies in the run of consecutive lines that is still open.
pub open spec fn in_run(run: Option<(u64, u64)>, line: u64) -> bool {
    run matches Some((start, end)) && start <= line <= end
}

/// A line is among the first `count + 1` exactly if it is among the first
/// `count` or is the next one.
proof fn lemma_one_more_line(lines: Seq<u64>, count: int, line: u64)
    requires
        0 <= count < lines.len(),
    ensures
        among_first(lines, count + 1, line) <==> among_first(lines, count, line) || lines[count]
            == line,
{
    if among_first(lines, count + 1, line) {
        let k = choose|k: int| 0 <= k < count + 1 && #[trigger] lines[k] == line;
        if k < count {
            assert(among_first(lines, count, line));
        }
    }
    if among_first(lines, count, line) {
        let k = choose|k: int| 0 <= k < count && #[trigger] lines[k] == line;
        assert(0 <= k < count + 1 && lines[k] == line);
    }
    if lines[count] == line {
        assert(0 <= count < count + 1 && lines[count] == line);
    }
}

/// No file reports a line twice: a line range among the gaps of a file does
/// not hold the first line of a region among them.
pub proof fn lemma_file_reports_no_line_twice(file: FileDataView, range: int, region: int)
    requires
        0 <= range < file_gaps(file).len(),
        0 <= region < file_gaps(file).len(),
        file_gaps(file)[range] is UncoveredLines,
        file_gaps(file)[region] is UncoveredRegion,
    ensures
        !range_holds(file_gaps(file)[range], region_line(file_gaps(file)[region])),
{
    let ranges = line_ranges(uncovered_lines(file.segments));
    let regions = region_gaps(file.segments);
    let branches = branch_gaps(file.branches);
    lemma_line_ranges_fold(uncovered_lines(file.segments));
    assert forall|at: int| 0 <= at < regions.len() implies (#[trigger] regions[at])
        is UncoveredRegion by {
        lemma_region_line_in_no_range(file.segments, at);
    }
    assert(forall|at: int| 0 <= at < branches.len() ==> (#[trigger] branches[at])
        is UncoveredBranch);
    assert(range < ranges.len());
    assert(ranges.len() <= region < ranges.len() + regions.len());
    lemma_region_line_in_no_range(file.segments, region - ranges.len());
    assert(file_gaps(file)[region] == regions[region - ranges.len()]);
    assert(file_gaps(file)[range] == ranges[range]);
}

} // verus!
