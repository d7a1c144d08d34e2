//! Compact output formatting for coverage gaps.
//!
//! Renders an analysis result as greppable text: one line per gap, grouped
//! by file, and the summary line last.
//!
//! ```text
//! src/lib.rs:7 UNCOVERED
//! src/lib.rs:8-9 UNCOVERED
//! src/lib.rs:42:3-42:18 REGION hits:0
//! src/lib.rs:50:5 BRANCH true:5 false:0
//! Lines: 92.3% | Regions: 88.1% | Branches: 75.0% | Functions: 100.0%
//! ```

use vstd::prelude::*;

use crate::analysis::{
    AnalysisResult, AnalysisResultView, CoverageGap, CoverageSummary, CoverageSummaryView,
    FileGapsView,
};
use crate::views::views;
use crate::model::Percent;

verus! {

/// The text of one decimal digit.
pub open spec fn digit(value: nat) -> Seq<char> {
    if value == 0 {
        "0"@
    } else if value == 1 {
        "1"@
    } else if value == 2 {
        "2"@
    } else if value == 3 {
        "3"@
    } else if value == 4 {
        "4"@
    } else if value == 5 {
        "5"@
    } else if value == 6 {
        "6"@
    } else if value == 7 {
        "7"@
    } else if value == 8 {
        "8"@
    } else {
        "9"@
    }
}

/// A number in decimal, without leading zeros.
pub open spec fn decimal(value: nat) -> Seq<char>
    decreases value,
{
    if value < 10 {
        digit(value)
    } else {
        decimal(value / 10) + digit(value % 10)
    }
}

/// The output line of one gap of the file `filename`, with its line break.
pub open spec fn gap_line(filename: Seq<char>, gap: CoverageGap) -> Seq<char> {
    match gap {
        CoverageGap::UncoveredLines { start_line, end_line } => if start_line == end_line {
            filename + ":"@ + decimal(start_line as nat) + " UNCOVERED\n"@
        } else {
            filename + ":"@ + decimal(start_line as nat) + "-"@ + decimal(end_line as nat)
                + " UNCOVERED\n"@
        },
        CoverageGap::UncoveredRegion { line_start, col_start, line_end, col_end } => filename
            + ":"@ + decimal(line_start as nat) + ":"@ + decimal(col_start as nat) + "-"@
            + decimal(line_end as nat) + ":"@ + decimal(col_end as nat) + " REGION hits:0\n"@,
        CoverageGap::UncoveredBranch { line, col, true_count, false_count } => filename + ":"@
            + decimal(line as nat) + ":"@ + decimal(col as nat) + " BRANCH true:"@ + decimal(
            true_count as nat,
        ) + " false:"@ + decimal(false_count as nat) + "\n"@,
    }
}

/// The output lines of the first `count` gaps of a file.
pub open spec fn gap_lines(filename: Seq<char>, gaps: Seq<CoverageGap>, count: int) -> Seq<char>
    decreases count,
{
    if count <= 0 {
        Seq::empty()
    } else {
        gap_lines(filename, gaps, count - 1) + gap_line(filename, gaps[count - 1])
    }
}

/// The output lines of the first `count` files.
pub open spec fn file_lines(files: Seq<FileGapsView>, count: int) -> Seq<char>
    decreases count,
{
    if count <= 0 {
        Seq::empty()
    } else {
        file_lines(files, count - 1) + gap_lines(
            files[count - 1].filename,
            files[count - 1].gaps,
            files[count - 1].gaps.len() as int,
        )
    }
}

/// A percentage with its sign.
pub open spec fn percent_text(percent: Seq<char>) -> Seq<char> {
    percent + "%"@
}

/// The summary line. It names the branches only where they were measured,
/// and ends without a line break.
pub open spec fn summary_line(summary: CoverageSummaryView) -> Seq<char> {
    match summary.branches_percent {
        Some(branches) => "Lines: "@ + percent_text(summary.lines_percent) + " | Regions: "@
            + percent_text(summary.regions_percent) + " | Branches: "@ + percent_text(branches)
            + " | Functions: "@ + percent_text(summary.functions_percent),
        None => "Lines: "@ + percent_text(summary.lines_percent) + " | Regions: "@
            + percent_text(summary.regions_percent) + " | Functions: "@ + percent_text(
            summary.functions_percent,
        ),
    }
}

/// The whole report: the gap lines of every file, then the summary line.
pub open spec fn report(result: AnalysisResultView) -> Seq<char> {
    file_lines(result.files, result.files.len() as int) + summary_line(result.summary)
}

/// The text of one decimal digit.
fn digit_text(value: u64) -> (text: &'static str)
    requires
        value < 10,
    ensures
        text@ == digit(value as nat),
{
    if value == 0 {
        "0"
    } else if value == 1 {
        "1"
    } else if value == 2 {
        "2"
    } else if value == 3 {
        "3"
    } else if value == 4 {
        "4"
    } else if value == 5 {
        "5"
    } else if value == 6 {
        "6"
    } else if value == 7 {
        "7"
    } else if value == 8 {
        "8"
    } else {
        "9"
    }
}

/// Appends a number in decimal to the output buffer.
pub fn push_decimal(output: &mut String, value: u64)
    ensures
        final(output)@ == old(output)@ + decimal(value as nat),
    decreases value,
{
    if value >= 10 {
        push_decimal(output, value / 10);
    }
    output.append(digit_text(value % 10));
    assert(output@ =~= old(output)@ + decimal(value as nat));
}

/// Formats a single coverage gap into the output buffer.
pub fn format_gap(output: &mut String, filename: &str, gap: &CoverageGap)
    ensures
        final(output)@ == old(output)@ + gap_line(filename@, *gap),
{
    output.append(filename);
    output.append(":");
    match gap {
        CoverageGap::UncoveredLines { start_line, end_line } => {
            push_decimal(output, *start_line);
            if *start_line != *end_line {
                output.append("-");
                push_decimal(output, *end_line);
            }
            output.append(" UNCOVERED\n");
        },
        CoverageGap::UncoveredRegion { line_start, col_start, line_end, col_end } => {
            push_decimal(output, *line_start);
            output.append(":");
            push_decimal(output, *col_start);
            output.append("-");
            push_decimal(output, *line_end);
            output.append(":");
            push_decimal(output, *col_end);
            output.append(" REGION hits:0\n");
        },
        CoverageGap::UncoveredBranch { line, col, true_count, false_count } => {
            push_decimal(output, *line);
            output.append(":");
            push_decimal(output, *col);
            output.append(" BRANCH true:");
            push_decimal(output, *true_count);
            output.append(" false:");
            push_decimal(output, *false_count);
            output.append("\n");
        },
    }
    assert(output@ =~= old(output)@ + gap_line(filename@, *gap));
}

/// Formats a percentage with one decimal place and the percent sign.
pub fn format_percent(value: &Percent) -> (text: String)
    ensures
        text@ == percent_text(value@),
{
    let mut text = value.text.clone();
    text.append("%");
    text
}

/// Formats the summary line.
pub fn format_summary(output: &mut String, summary: &CoverageSummary)
    ensures
        final(output)@ == old(output)@ + summary_line(summary@),
{
    let lines = format_percent(&summary.lines_percent);
    let regions = format_percent(&summary.regions_percent);
    let functions = format_percent(&summary.functions_percent);

    output.append("Lines: ");
    output.append(lines.as_str());
    output.append(" | Regions: ");
    output.append(regions.as_str());
    match &summary.branches_percent {
        Some(percent) => {
            let branches = format_percent(percent);
            output.append(" | Branches: ");
            output.append(branches.as_str());
        },
        None => {},
    }
    output.append(" | Functions: ");
    output.append(functions.as_str());
    assert(output@ =~= old(output)@ + summary_line(summary@));
}

/// Formats an analysis result as compact, agent-friendly text.
#[must_use]
pub fn format_result(result: &AnalysisResult) -> (output: String)
    ensures
        output@ == report(result@),
{
    let mut output = String::new();

    let mut i: usize = 0;
    while i < result.files.len()
        invariant
            i <= result.files.len(),
            output@ == file_lines(views(result.files@), i as int),
        decreases result.files.len() - i,
    {
        let file = &result.files[i];
        let ghost before = output@;
        let mut k: usize = 0;
        while k < file.gaps.len()
            invariant
                k <= file.gaps.len(),
                output@ == before + gap_lines(file.filename@, file.gaps@, k as int),
            decreases file.gaps.len() - k,
        {
            format_gap(&mut output, file.filename.as_str(), &file.gaps[k]);
            k = k + 1;
            assert(output@ =~= before + gap_lines(file.filename@, file.gaps@, k as int));
        }
        i = i + 1;
    }

    format_summary(&mut output, &result.summary);
    output
}

} // verus!
