use std::collections::BTreeSet;

use llvm_cov_easy::analysis::{
    analyze, analyze_file, analyze_segments, collapse_lines, AnalysisError, CoverageGap,
};
use llvm_cov_easy::model::{
    Branch, CoverageCounts, CoverageExport, ExportData, FileData, Percent, Segment, Summary,
};

fn segment(line: u64, col: u64, count: u64, has_count: bool, is_region_entry: bool) -> Segment {
    Segment { line, col, count, has_count, is_region_entry, is_gap_region: false }
}

fn no_summary() -> Summary {
    Summary { branches: None, functions: None, instantiations: None, lines: None, regions: None }
}

fn counts(count: u64, covered: u64, percent: f64) -> CoverageCounts {
    let number = serde_json::Number::from_f64(percent).unwrap();
    CoverageCounts { count, covered, percent: Percent::from_number(&number).unwrap() }
}

fn file(filename: &str, segments: Vec<Segment>, branches: Vec<Branch>) -> FileData {
    FileData { filename: filename.to_string(), segments, branches, summary: no_summary() }
}

fn export(files: Vec<FileData>, totals: Summary) -> CoverageExport {
    CoverageExport {
        data: vec![ExportData { files, functions: vec![], totals }],
        export_type: "llvm.coverage.json.export".to_string(),
        version: "2.0.1".to_string(),
    }
}

#[test]
fn test_collapse_lines_empty() {
    let lines = BTreeSet::new();
    let gaps = collapse_lines(&lines);
    assert!(gaps.is_empty());
}

#[test]
fn test_collapse_lines_single() {
    let lines = BTreeSet::from([5]);
    let gaps = collapse_lines(&lines);
    assert_eq!(gaps.len(), 1);
    assert_eq!(
        gaps[0],
        CoverageGap::UncoveredLines {
            start_line: 5,
            end_line: 5,
        }
    );
}

#[test]
fn test_analyze_segments_last_segment_has_count() {
    // Edge case: last segment has has_count=true and is the final segment,
    // so the fallback (seg.line, seg.col) path is exercised.
    // Segment 0 covers line 1 with count=1, ending at segment 1 (line 2).
    // Segment 1 (no has_count) is skipped.
    // Segment 2 is the last segment with has_count=true on a fresh line.
    let segments = vec![
        Segment {
            line: 1,
            col: 1,
            count: 1,
            has_count: true,
            is_region_entry: true,
            is_gap_region: false,
        },
        Segment {
            line: 2,
            col: 1,
            count: 0,
            has_count: false,
            is_region_entry: false,
            is_gap_region: false,
        },
        Segment {
            line: 5,
            col: 1,
            count: 0,
            has_count: true,
            is_region_entry: true,
            is_gap_region: false,
        },
    ];
    let (line_gaps, region_gaps) = analyze_segments(&segments);
    // Line 5 should be uncovered (last segment fallback path).
    assert_eq!(line_gaps.len(), 1);
    assert_eq!(
        line_gaps[0],
        CoverageGap::UncoveredLines {
            start_line: 5,
            end_line: 5,
        }
    );
    // The region at line 5 is fully uncovered, so no sub-line REGION.
    assert!(region_gaps.is_empty());
}

#[test]
fn test_collapse_lines_consecutive() {
    let lines = BTreeSet::from([3, 4, 5, 10, 11, 15]);
    let gaps = collapse_lines(&lines);
    assert_eq!(gaps.len(), 3);
    assert_eq!(
        gaps[0],
        CoverageGap::UncoveredLines {
            start_line: 3,
            end_line: 5,
        }
    );
    assert_eq!(
        gaps[1],
        CoverageGap::UncoveredLines {
            start_line: 10,
            end_line: 11,
        }
    );
    assert_eq!(
        gaps[2],
        CoverageGap::UncoveredLines {
            start_line: 15,
            end_line: 15,
        }
    );
}

#[test]
fn collapse_lines_keeps_apart_what_one_line_separates() {
    let lines = BTreeSet::from([1, 3, 5]);
    let gaps = collapse_lines(&lines);
    assert_eq!(
        gaps,
        vec![
            CoverageGap::UncoveredLines { start_line: 1, end_line: 1 },
            CoverageGap::UncoveredLines { start_line: 3, end_line: 3 },
            CoverageGap::UncoveredLines { start_line: 5, end_line: 5 },
        ]
    );
}

#[test]
fn collapse_lines_covers_exactly_the_set() {
    let lines = BTreeSet::from([0, 1, 2, 7, 9, 10, 40, 41, 42, 43]);
    let gaps = collapse_lines(&lines);
    let mut held = BTreeSet::new();
    let mut last_end: Option<u64> = None;
    for gap in &gaps {
        match gap {
            CoverageGap::UncoveredLines { start_line, end_line } => {
                assert!(start_line <= end_line);
                if let Some(end) = last_end {
                    assert!(end + 1 < *start_line);
                }
                last_end = Some(*end_line);
                for line in *start_line..=*end_line {
                    assert!(held.insert(line));
                }
            }
            other => panic!("not a line range: {other:?}"),
        }
    }
    assert_eq!(held, lines);
    assert_eq!(gaps.len(), 4);
}

#[test]
fn collapse_lines_at_the_largest_line() {
    let lines = BTreeSet::from([u64::MAX - 1, u64::MAX]);
    let gaps = collapse_lines(&lines);
    assert_eq!(
        gaps,
        vec![CoverageGap::UncoveredLines { start_line: u64::MAX - 1, end_line: u64::MAX }]
    );
}

#[test]
fn analyze_segments_span_reaches_the_next_segments_line() {
    // The count of the first segment holds through line 2, where the second
    // segment starts, so line 2 is covered in part: the second segment shows
    // as a region, not as an uncovered line.
    let segments = vec![segment(1, 1, 1, true, true), segment(2, 1, 0, true, true)];
    let (line_gaps, region_gaps) = analyze_segments(&segments);
    assert!(line_gaps.is_empty());
    assert_eq!(
        region_gaps,
        vec![CoverageGap::UncoveredRegion { line_start: 2, col_start: 1, line_end: 2, col_end: 1 }]
    );
}

#[test]
fn analyze_segments_uncovered_lines_between_covered_ones() {
    let segments = vec![
        segment(1, 1, 3, true, true),
        segment(1, 20, 0, false, false),
        segment(3, 5, 0, true, true),
        segment(6, 2, 0, false, false),
        segment(8, 1, 2, true, true),
        segment(8, 30, 0, false, false),
    ];
    let (line_gaps, region_gaps) = analyze_segments(&segments);
    assert_eq!(line_gaps, vec![CoverageGap::UncoveredLines { start_line: 3, end_line: 6 }]);
    assert!(region_gaps.is_empty());
}

#[test]
fn analyze_segments_region_on_partly_covered_line() {
    let segments = vec![
        segment(4, 1, 7, true, true),
        segment(4, 10, 0, true, true),
        segment(4, 25, 7, true, false),
        segment(4, 40, 0, false, false),
    ];
    let (line_gaps, region_gaps) = analyze_segments(&segments);
    assert!(line_gaps.is_empty());
    assert_eq!(
        region_gaps,
        vec![CoverageGap::UncoveredRegion {
            line_start: 4,
            col_start: 10,
            line_end: 4,
            col_end: 25
        }]
    );
}

#[test]
fn analyze_segments_overlap_takes_the_largest_count() {
    // Line 2 is spanned with count zero and again with count five.
    let segments = vec![
        segment(1, 1, 0, true, true),
        segment(2, 1, 5, true, true),
        segment(2, 9, 0, false, false),
    ];
    let (line_gaps, region_gaps) = analyze_segments(&segments);
    assert_eq!(line_gaps, vec![CoverageGap::UncoveredLines { start_line: 1, end_line: 1 }]);
    assert!(region_gaps.is_empty());
}

#[test]
fn analyze_segments_never_reports_a_line_twice() {
    let segments = vec![
        segment(1, 1, 2, true, true),
        segment(1, 8, 0, true, true),
        segment(2, 1, 0, true, true),
        segment(4, 1, 0, true, true),
        segment(4, 6, 9, true, true),
        segment(5, 1, 0, true, true),
        segment(9, 1, 0, false, false),
    ];
    let (line_gaps, region_gaps) = analyze_segments(&segments);
    for region in &region_gaps {
        let CoverageGap::UncoveredRegion { line_start, .. } = region else {
            panic!("not a region: {region:?}");
        };
        for range in &line_gaps {
            let CoverageGap::UncoveredLines { start_line, end_line } = range else {
                panic!("not a line range: {range:?}");
            };
            assert!(!(start_line <= line_start && line_start <= end_line));
        }
    }
    assert!(!region_gaps.is_empty());
    assert!(!line_gaps.is_empty());
}

#[test]
fn analyze_segments_without_segments() {
    let (line_gaps, region_gaps) = analyze_segments(&[]);
    assert!(line_gaps.is_empty());
    assert!(region_gaps.is_empty());
}

#[test]
fn analyze_segments_backward_span_marks_no_line() {
    // The next segment lies on an earlier line: the span holds no line.
    let segments = vec![segment(9, 1, 0, true, true), segment(3, 1, 1, true, true)];
    let (line_gaps, region_gaps) = analyze_segments(&segments);
    assert!(line_gaps.is_empty());
    assert!(region_gaps.is_empty());
}

#[test]
fn analyze_file_orders_ranges_regions_branches() {
    let branch = Branch {
        line_start: 1,
        col_start: 4,
        line_end: 1,
        col_end: 9,
        true_count: 0,
        false_count: 3,
    };
    let taken = Branch {
        line_start: 2,
        col_start: 4,
        line_end: 2,
        col_end: 9,
        true_count: 1,
        false_count: 3,
    };
    let segments = vec![
        segment(4, 1, 7, true, true),
        segment(4, 10, 0, true, true),
        segment(4, 25, 7, true, false),
        segment(4, 40, 0, false, false),
        segment(6, 1, 0, true, true),
        segment(7, 1, 0, false, false),
    ];
    let gaps = analyze_file(&file("src/a.rs", segments, vec![branch, taken]));
    assert_eq!(
        gaps,
        vec![
            CoverageGap::UncoveredLines { start_line: 6, end_line: 7 },
            CoverageGap::UncoveredRegion {
                line_start: 4,
                col_start: 10,
                line_end: 4,
                col_end: 25
            },
            CoverageGap::UncoveredBranch { line: 1, col: 4, true_count: 0, false_count: 3 },
        ]
    );
}

#[test]
fn analyze_file_branch_with_both_sides_zero() {
    let branch = Branch {
        line_start: 12,
        col_start: 8,
        line_end: 12,
        col_end: 20,
        true_count: 0,
        false_count: 0,
    };
    let gaps = analyze_file(&file("src/a.rs", vec![], vec![branch]));
    assert_eq!(
        gaps,
        vec![CoverageGap::UncoveredBranch { line: 12, col: 8, true_count: 0, false_count: 0 }]
    );
}

#[test]
fn analyze_empty_data_is_an_error() {
    let empty = CoverageExport {
        data: vec![],
        export_type: "llvm.coverage.json.export".to_string(),
        version: "2.0.1".to_string(),
    };
    let error = analyze(&empty).unwrap_err();
    assert_eq!(error, AnalysisError::EmptyData);
    assert_eq!(error.message(), "coverage data is empty (no data entries)");
}

#[test]
fn analyze_omits_files_without_gaps() {
    let covered = file("src/covered.rs", vec![segment(1, 1, 4, true, true)], vec![]);
    let gappy = file("src/gappy.rs", vec![segment(3, 1, 0, true, true)], vec![]);
    let result = analyze(&export(vec![covered, gappy], no_summary())).unwrap();
    assert_eq!(result.files.len(), 1);
    assert_eq!(result.files[0].filename, "src/gappy.rs");
    assert_eq!(
        result.files[0].gaps,
        vec![CoverageGap::UncoveredLines { start_line: 3, end_line: 3 }]
    );
}

#[test]
fn analyze_reads_only_the_first_entry() {
    let first = ExportData { files: vec![], functions: vec![], totals: no_summary() };
    let second = ExportData {
        files: vec![file("src/b.rs", vec![segment(3, 1, 0, true, true)], vec![])],
        functions: vec![],
        totals: no_summary(),
    };
    let both = CoverageExport {
        data: vec![first, second],
        export_type: "llvm.coverage.json.export".to_string(),
        version: "2.0.1".to_string(),
    };
    assert!(analyze(&both).unwrap().files.is_empty());
}

#[test]
fn analyze_summary_reads_the_totals() {
    let totals = Summary {
        branches: Some(counts(8, 6, 75.0)),
        functions: Some(counts(3, 3, 100.0)),
        instantiations: None,
        lines: Some(counts(13, 12, 92.3076923)),
        regions: None,
    };
    let summary = analyze(&export(vec![], totals)).unwrap().summary;
    assert_eq!(summary.lines_percent.text, "92.3");
    assert_eq!(summary.regions_percent.text, "0.0");
    assert_eq!(summary.functions_percent.text, "100.0");
    assert_eq!(summary.branches_percent.unwrap().text, "75.0");
}

#[test]
fn analyze_branch_percent_needs_a_counted_branch() {
    let mut totals = no_summary();
    totals.branches = Some(counts(0, 0, 0.0));
    assert!(analyze(&export(vec![], totals)).unwrap().summary.branches_percent.is_none());

    let mut totals = no_summary();
    totals.branches = Some(counts(1, 0, 0.0));
    let summary = analyze(&export(vec![], totals)).unwrap().summary;
    assert_eq!(summary.branches_percent.unwrap().text, "0.0");

    assert!(analyze(&export(vec![], no_summary())).unwrap().summary.branches_percent.is_none());
}
