use llvm_cov_easy::analysis::{AnalysisResult, CoverageGap, CoverageSummary, FileGaps};
use llvm_cov_easy::format::{
    format_gap, format_percent, format_result, format_summary, push_decimal,
};
use llvm_cov_easy::model::Percent;

fn percent(value: f64) -> Percent {
    Percent::from_number(&serde_json::Number::from_f64(value).unwrap()).unwrap()
}

fn line_of(filename: &str, gap: CoverageGap) -> String {
    let mut output = String::new();
    format_gap(&mut output, filename, &gap);
    output
}

#[test]
fn test_format_single_uncovered_line() {
    let result = AnalysisResult {
        files: vec![FileGaps {
            filename: "src/lib.rs".to_string(),
            gaps: vec![CoverageGap::UncoveredLines {
                start_line: 7,
                end_line: 7,
            }],
        }],
        summary: CoverageSummary {
            lines_percent: percent(92.3),
            regions_percent: percent(88.1),
            branches_percent: None,
            functions_percent: percent(100.0),
        },
    };

    let output = format_result(&result);
    assert!(output.contains("src/lib.rs:7 UNCOVERED"));
}

#[test]
fn test_format_uncovered_range() {
    let result = AnalysisResult {
        files: vec![FileGaps {
            filename: "src/lib.rs".to_string(),
            gaps: vec![CoverageGap::UncoveredLines {
                start_line: 8,
                end_line: 10,
            }],
        }],
        summary: CoverageSummary {
            lines_percent: percent(90.0),
            regions_percent: percent(85.0),
            branches_percent: None,
            functions_percent: percent(100.0),
        },
    };

    let output = format_result(&result);
    assert!(output.contains("src/lib.rs:8-10 UNCOVERED"));
}

#[test]
fn test_format_branch_gap() {
    let result = AnalysisResult {
        files: vec![FileGaps {
            filename: "src/lib.rs".to_string(),
            gaps: vec![CoverageGap::UncoveredBranch {
                line: 50,
                col: 5,
                true_count: 5,
                false_count: 0,
            }],
        }],
        summary: CoverageSummary {
            lines_percent: percent(92.3),
            regions_percent: percent(88.1),
            branches_percent: Some(percent(75.0)),
            functions_percent: percent(100.0),
        },
    };

    let output = format_result(&result);
    assert!(output.contains("src/lib.rs:50:5 BRANCH true:5 false:0"));
    assert!(output.contains("Branches: 75.0%"));
}

#[test]
fn test_format_summary_without_branches() {
    let summary = CoverageSummary {
        lines_percent: percent(92.3),
        regions_percent: percent(88.1),
        branches_percent: None,
        functions_percent: percent(100.0),
    };
    let mut output = String::new();
    format_summary(&mut output, &summary);
    assert_eq!(output, "Lines: 92.3% | Regions: 88.1% | Functions: 100.0%");
}

#[test]
fn test_format_summary_with_branches() {
    let summary = CoverageSummary {
        lines_percent: percent(92.3),
        regions_percent: percent(88.1),
        branches_percent: Some(percent(75.0)),
        functions_percent: percent(100.0),
    };
    let mut output = String::new();
    format_summary(&mut output, &summary);
    assert_eq!(
        output,
        "Lines: 92.3% | Regions: 88.1% | Branches: 75.0% | Functions: 100.0%"
    );
}

#[test]
fn format_gap_single_line() {
    let gap = CoverageGap::UncoveredLines { start_line: 7, end_line: 7 };
    assert_eq!(line_of("src/lib.rs", gap), "src/lib.rs:7 UNCOVERED\n");
}

#[test]
fn format_gap_line_range() {
    let gap = CoverageGap::UncoveredLines { start_line: 8, end_line: 10 };
    assert_eq!(line_of("src/lib.rs", gap), "src/lib.rs:8-10 UNCOVERED\n");
}

#[test]
fn format_gap_region() {
    let gap =
        CoverageGap::UncoveredRegion { line_start: 42, col_start: 3, line_end: 42, col_end: 18 };
    assert_eq!(line_of("src/lib.rs", gap), "src/lib.rs:42:3-42:18 REGION hits:0\n");
}

#[test]
fn format_gap_branch() {
    let gap = CoverageGap::UncoveredBranch { line: 50, col: 5, true_count: 5, false_count: 0 };
    assert_eq!(line_of("src/lib.rs", gap), "src/lib.rs:50:5 BRANCH true:5 false:0\n");
}

#[test]
fn format_gap_appends_to_what_is_there() {
    let mut output = String::from("before\n");
    let gap = CoverageGap::UncoveredLines { start_line: 1, end_line: 2 };
    format_gap(&mut output, "a b/ü.rs", &gap);
    assert_eq!(output, "before\na b/ü.rs:1-2 UNCOVERED\n");
}

#[test]
fn push_decimal_writes_every_digit() {
    for (value, text) in [
        (0u64, "0"),
        (9, "9"),
        (10, "10"),
        (105, "105"),
        (1234567890, "1234567890"),
        (u64::MAX, "18446744073709551615"),
    ] {
        let mut output = String::new();
        push_decimal(&mut output, value);
        assert_eq!(output, text);
    }
}

#[test]
fn format_percent_has_one_fractional_digit() {
    assert_eq!(format_percent(&percent(92.3076923)), "92.3%");
    assert_eq!(format_percent(&percent(100.0)), "100.0%");
    assert_eq!(format_percent(&percent(0.0)), "0.0%");
    assert_eq!(format_percent(&percent(99.96)), "100.0%");
    assert_eq!(format_percent(&percent(0.25)), "0.2%");
    assert_eq!(format_percent(&percent(0.35)), "0.3%");
    assert_eq!(format_percent(&Percent::zero()), "0.0%");
}

#[test]
fn format_percent_of_a_whole_number() {
    let whole = Percent::from_number(&serde_json::Number::from(100u64)).unwrap();
    assert_eq!(format_percent(&whole), "100.0%");
    let negative = Percent::from_number(&serde_json::Number::from(-3i64)).unwrap();
    assert_eq!(format_percent(&negative), "-3.0%");
}

#[test]
fn format_result_groups_by_file_and_ends_with_the_summary() {
    let result = AnalysisResult {
        files: vec![
            FileGaps {
                filename: "src/b.rs".to_string(),
                gaps: vec![
                    CoverageGap::UncoveredLines { start_line: 3, end_line: 5 },
                    CoverageGap::UncoveredRegion {
                        line_start: 9,
                        col_start: 2,
                        line_end: 10,
                        col_end: 4,
                    },
                ],
            },
            FileGaps {
                filename: "src/a.rs".to_string(),
                gaps: vec![CoverageGap::UncoveredBranch {
                    line: 1,
                    col: 1,
                    true_count: 0,
                    false_count: 0,
                }],
            },
        ],
        summary: CoverageSummary {
            lines_percent: percent(50.0),
            regions_percent: percent(40.04),
            branches_percent: Some(percent(0.0)),
            functions_percent: percent(66.666),
        },
    };
    assert_eq!(
        format_result(&result),
        "src/b.rs:3-5 UNCOVERED\n\
         src/b.rs:9:2-10:4 REGION hits:0\n\
         src/a.rs:1:1 BRANCH true:0 false:0\n\
         Lines: 50.0% | Regions: 40.0% | Branches: 0.0% | Functions: 66.7%"
    );
}

#[test]
fn format_result_without_gaps_is_the_summary_line() {
    let result = AnalysisResult {
        files: vec![],
        summary: CoverageSummary {
            lines_percent: percent(100.0),
            regions_percent: percent(100.0),
            branches_percent: None,
            functions_percent: percent(100.0),
        },
    };
    assert_eq!(format_result(&result), "Lines: 100.0% | Regions: 100.0% | Functions: 100.0%");
}
