//! The `llvm.coverage.json.export` document as typed values.
//!
//! Covers versions `2.0.1` and `3.1.0` of the export format. Each type that
//! owns text or a list has a view: the same record over `Seq`.

use vstd::prelude::*;

use crate::json::{number_view, one_decimal};
use crate::views::views;

verus! {

/// A coverage segment: the point where the coverage state changes.
///
/// Segments form a state machine: each one sets the execution count from its
/// position up to the next segment.
#[derive(Debug, Clone, Copy, PartialEq, Eq)]
pub struct Segment {
    /// Line number (1-based).
    pub line: u64,
    /// Column number (1-based).
    pub col: u64,
    /// Execution count at this point.
    pub count: u64,
    /// Whether this segment has a meaningful count.
    pub has_count: bool,
    /// Whether this segment starts a new region.
    pub is_region_entry: bool,
    /// Whether this is a gap region (inserted for non-code areas).
    pub is_gap_region: bool,
}

impl View for Segment {
    type V = Segment;

    open spec fn view(&self) -> Segment {
        *self
    }
}

/// A branch coverage entry with true/false execution counts.
#[derive(Debug, Clone, Copy, PartialEq, Eq)]
pub struct Branch {
    /// Starting line number.
    pub line_start: u64,
    /// Starting column number.
    pub col_start: u64,
    /// Ending line number.
    pub line_end: u64,
    /// Ending column number.
    pub col_end: u64,
    /// Number of times the true branch was taken.
    pub true_count: u64,
    /// Number of times the false branch was taken.
    pub false_count: u64,
}

impl View for Branch {
    type V = Branch;

    open spec fn view(&self) -> Branch {
        *self
    }
}

/// A coverage region within a function.
#[derive(Debug, Clone, Copy, PartialEq, Eq)]
pub struct Region {
    /// Starting line number.
    pub line_start: u64,
    /// Starting column number.
    pub col_start: u64,
    /// Ending line number.
    pub line_end: u64,
    /// Ending column number.
    pub col_end: u64,
    /// Number of times this region was executed.
    pub execution_count: u64,
    /// File ID within the function's file list.
    pub file_id: u64,
    /// Expanded file ID.
    pub expanded_file_id: u64,
    /// Region kind.
    pub kind: u64,
}

impl View for Region {
    type V = Region;

    open spec fn view(&self) -> Region {
        *self
    }
}

/// A percentage as it is printed: rounded to one digit after the point.
///
/// The library computes nothing from a percentage; it carries the export's
/// number from the document to the summary line, so it keeps the number's
/// text.
#[derive(Debug, Clone, PartialEq, Eq)]
pub struct Percent {
    /// The number with one fractional digit, without the percent sign.
    pub text: String,
}

impl View for Percent {
    type V = Seq<char>;

    open spec fn view(&self) -> Seq<char> {
        self.text@
    }
}

impl Percent {
    /// The percentage of a counter that the export does not hold.
    pub fn zero() -> (percent: Percent)
        ensures
            percent@ == "0.0"@,
    {
        Percent { text: String::from_str("0.0") }
    }

    /// The percentage that a JSON number stands for, if it can be printed.
    pub fn from_number(number: &serde_json::Number) -> (percent: Option<Percent>)
        ensures
            match percent {
                Some(percent) => number_view(*number).one_decimal == Some(percent@),
                None => number_view(*number).one_decimal is None,
            },
    {
        match one_decimal(number) {
            Some(text) => Some(Percent { text }),
            None => None,
        }
    }

    /// A second copy of this percentage.
    pub fn duplicate(&self) -> (percent: Percent)
        ensures
            percent@ == self@,
    {
        Percent { text: self.text.clone() }
    }
}

/// Count and percentage for a single coverage metric.
#[derive(Debug, Clone, PartialEq, Eq)]
pub struct CoverageCounts {
    /// Total count.
    pub count: u64,
    /// Number of covered items.
    pub covered: u64,
    /// Coverage percentage.
    pub percent: Percent,
}

/// The view of `CoverageCounts`.
pub ghost struct CoverageCountsView {
    pub count: u64,
    pub covered: u64,
    pub percent: Seq<char>,
}

impl View for CoverageCounts {
    type V = CoverageCountsView;

    open spec fn view(&self) -> CoverageCountsView {
        CoverageCountsView { count: self.count, covered: self.covered, percent: self.percent@ }
    }
}

/// The view of an optional counter.
pub open spec fn counter_view(counter: Option<CoverageCounts>) -> Option<CoverageCountsView> {
    match counter {
        Some(counts) => Some(counts@),
        None => None,
    }
}

/// Coverage summary with counts for different coverage metrics. A counter
/// that was not measured is absent, which is not the same as zero.
#[derive(Debug, Clone, PartialEq, Eq)]
pub struct Summary {
    /// Branch coverage counts.
    pub branches: Option<CoverageCounts>,
    /// Function coverage counts.
    pub functions: Option<CoverageCounts>,
    /// Instantiation coverage counts.
    pub instantiations: Option<CoverageCounts>,
    /// Line coverage counts.
    pub lines: Option<CoverageCounts>,
    /// Region coverage counts.
    pub regions: Option<CoverageCounts>,
}

/// The view of `Summary`.
pub ghost struct SummaryView {
    pub branches: Option<CoverageCountsView>,
    pub functions: Option<CoverageCountsView>,
    pub instantiations: Option<CoverageCountsView>,
    pub lines: Option<CoverageCountsView>,
    pub regions: Option<CoverageCountsView>,
}

impl View for Summary {
    type V = SummaryView;

    open spec fn view(&self) -> SummaryView {
        SummaryView {
            branches: counter_view(self.branches),
            functions: counter_view(self.functions),
            instantiations: counter_view(self.instantiations),
            lines: counter_view(self.lines),
            regions: counter_view(self.regions),
        }
    }
}

/// Coverage data for a single source file.
#[derive(Debug, Clone, PartialEq, Eq)]
pub struct FileData {
    /// File path as it appears in the coverage data.
    pub filename: String,
    /// Coverage segments, in the order of their positions.
    pub segments: Vec<Segment>,
    /// Branch coverage entries (present when branches were measured).
    pub branches: Vec<Branch>,
    /// File-level coverage summary.
    pub summary: Summary,
}

/// The view of `FileData`.
pub ghost struct FileDataView {
    pub filename: Seq<char>,
    pub segments: Seq<Segment>,
    pub branches: Seq<Branch>,
    pub summary: SummaryView,
}

impl View for FileData {
    type V = FileDataView;

    open spec fn view(&self) -> FileDataView {
        FileDataView {
            filename: self.filename@,
            segments: self.segments@,
            branches: self.branches@,
            summary: self.summary@,
        }
    }
}

/// Per-function coverage data.
#[derive(Debug, Clone, PartialEq, Eq)]
pub struct FunctionData {
    /// Mangled function name.
    pub name: String,
    /// Execution count.
    pub count: u64,
    /// Source files this function spans.
    pub filenames: Vec<String>,
    /// Region coverage data.
    pub regions: Vec<Region>,
    /// Branch coverage data.
    pub branches: Vec<Branch>,
}

/// The view of `FunctionData`.
pub ghost struct FunctionDataView {
    pub name: Seq<char>,
    pub count: u64,
    pub filenames: Seq<Seq<char>>,
    pub regions: Seq<Region>,
    pub branches: Seq<Branch>,
}

impl View for FunctionData {
    type V = FunctionDataView;

    open spec fn view(&self) -> FunctionDataView {
        FunctionDataView {
            name: self.name@,
            count: self.count,
            filenames: views(self.filenames@),
            regions: self.regions@,
            branches: self.branches@,
        }
    }
}

/// A single coverage data entry containing files, functions, and totals.
#[derive(Debug, Clone, PartialEq, Eq)]
pub struct ExportData {
    /// Per-file coverage data.
    pub files: Vec<FileData>,
    /// Per-function coverage data.
    pub functions: Vec<FunctionData>,
    /// Aggregate coverage totals across all files.
    pub totals: Summary,
}

/// The view of `ExportData`.
pub ghost struct ExportDataView {
    pub files: Seq<FileDataView>,
    pub functions: Seq<FunctionDataView>,
    pub totals: SummaryView,
}

impl View for ExportData {
    type V = ExportDataView;

    open spec fn view(&self) -> ExportDataView {
        ExportDataView {
            files: views(self.files@),
            functions: views(self.functions@),
            totals: self.totals@,
        }
    }
}

/// Top-level coverage export structure.
#[derive(Debug, Clone, PartialEq, Eq)]
pub struct CoverageExport {
    /// Coverage data entries (typically one element).
    pub data: Vec<ExportData>,
    /// Format identifier, expected to be `"llvm.coverage.json.export"`.
    pub export_type: String,
    /// Format version (e.g., `"2.0.1"` or `"3.1.0"`).
    pub version: String,
}

/// The view of `CoverageExport`.
pub ghost struct CoverageExportView {
    pub data: Seq<ExportDataView>,
    pub export_type: Seq<char>,
    pub version: Seq<char>,
}

impl View for CoverageExport {
    type V = CoverageExportView;

    open spec fn view(&self) -> CoverageExportView {
        CoverageExportView {
            data: views(self.data@),
            export_type: self.export_type@,
            version: self.version@,
        }
    }
}

} // verus!
