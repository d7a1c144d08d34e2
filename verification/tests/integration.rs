use llvm_cov_easy::analysis::AnalysisError;
use llvm_cov_easy::decode::{DecodeError, SchemaError};
use llvm_cov_easy::{analyze_and_format, analyze_json, Error};

const COUNTERS: &str = r#""lines":{"count":10,"covered":9,"percent":90.0},"regions":{"count":20,"covered":17,"percent":85.0},"functions":{"count":3,"covered":3,"percent":100}"#;

fn document(files: &str, totals_extra: &str) -> String {
    format!(
        r#"{{"data":[{{"files":[{files}],"totals":{{{COUNTERS}{totals_extra}}}}}],"type":"llvm.coverage.json.export","version":"2.0.1"}}"#
    )
}

fn file_record(filename: &str, segments: &str, branches: &str) -> String {
    format!(
        r#"{{"filename":"{filename}","segments":[{segments}],"branches":[{branches}],"summary":{{{COUNTERS}}}}}"#
    )
}

#[test]
fn test_malformed_json() {
    let result = analyze_and_format("not json");
    assert!(result.is_err());
    let err = result.unwrap_err();
    assert_eq!(
        err.message(),
        "failed to parse coverage JSON: expected ident at line 1 column 2"
    );
}

#[test]
fn test_empty_data() {
    let json = r#"{"data":[],"type":"llvm.coverage.json.export","version":"2.0.1"}"#;
    let result = analyze_and_format(json);
    assert!(result.is_err());
    let err = result.unwrap_err();
    assert_eq!(err.message(), "coverage data is empty (no data entries)");
}

#[test]
fn test_malformed_segment() {
    // Segment array has wrong number of elements
    let json = r#"{"data":[{"files":[{"filename":"src/lib.rs","segments":[[1,1,0]],"summary":{"lines":{"count":1,"covered":0,"percent":0.0},"regions":{"count":1,"covered":0,"percent":0.0},"functions":{"count":1,"covered":0,"percent":0.0}}}],"totals":{"lines":{"count":1,"covered":0,"percent":0.0},"regions":{"count":1,"covered":0,"percent":0.0},"functions":{"count":1,"covered":0,"percent":0.0}}}],"type":"llvm.coverage.json.export","version":"2.0.1"}"#;
    let result = analyze_and_format(json);
    assert!(result.is_err());
}

#[test]
fn test_malformed_branch() {
    // Branch array has wrong number of elements
    let json = r#"{"data":[{"files":[{"filename":"src/lib.rs","segments":[],"branches":[[1,1]],"summary":{"lines":{"count":1,"covered":0,"percent":0.0},"regions":{"count":1,"covered":0,"percent":0.0},"functions":{"count":1,"covered":0,"percent":0.0}}}],"totals":{"lines":{"count":1,"covered":0,"percent":0.0},"regions":{"count":1,"covered":0,"percent":0.0},"functions":{"count":1,"covered":0,"percent":0.0}}}],"type":"llvm.coverage.json.export","version":"2.0.1"}"#;
    let result = analyze_and_format(json);
    assert!(result.is_err());
}

#[test]
fn test_malformed_region() {
    // Region array has wrong number of elements
    let json = r#"{"data":[{"files":[{"filename":"src/lib.rs","segments":[],"summary":{"lines":{"count":1,"covered":0,"percent":0.0},"regions":{"count":1,"covered":0,"percent":0.0},"functions":{"count":1,"covered":0,"percent":0.0}}}],"functions":[{"name":"foo","count":1,"filenames":["src/lib.rs"],"regions":[[1,1]],"branches":[]}],"totals":{"lines":{"count":1,"covered":0,"percent":0.0},"regions":{"count":1,"covered":0,"percent":0.0},"functions":{"count":1,"covered":0,"percent":0.0}}}],"type":"llvm.coverage.json.export","version":"2.0.1"}"#;
    let result = analyze_and_format(json);
    assert!(result.is_err());
}

#[test]
fn malformed_segment_names_the_segment() {
    let json = document(&file_record("src/lib.rs", "[1,1,0]", ""), "");
    let error = analyze_and_format(&json).unwrap_err();
    assert_eq!(error, Error::Json(DecodeError::Schema(SchemaError::Segment)));
    assert_eq!(
        error.message(),
        "failed to parse coverage JSON: a segment must be an array of 3 unsigned integers and 3 booleans"
    );
}

#[test]
fn empty_data_is_the_analysis_error() {
    let json = r#"{"data":[],"type":"llvm.coverage.json.export","version":"2.0.1"}"#;
    assert_eq!(analyze_json(json).unwrap_err(), Error::Analysis(AnalysisError::EmptyData));
}

#[test]
fn uncovered_lines_regions_and_branches() {
    let first = file_record(
        "src/lib.rs",
        "[1,1,4,true,true,false],[3,2,0,false,false,false],[7,1,0,true,true,false],[9,2,0,false,false,false],[42,1,6,true,true,false],[42,3,0,true,true,false],[42,18,6,true,false,false],[42,30,0,false,false,false]",
        "[50,5,50,12,5,0,0,0,4],[51,5,51,12,2,3,0,0,4]",
    );
    let second = file_record("src/full.rs", "[1,1,1,true,true,false],[2,2,0,false,false,false]", "");
    let json = document(
        &format!("{first},{second}"),
        r#","branches":{"count":4,"covered":3,"percent":75.0}"#,
    );
    assert_eq!(
        analyze_and_format(&json).unwrap(),
        "src/lib.rs:7-9 UNCOVERED\n\
         src/lib.rs:42:3-42:18 REGION hits:0\n\
         src/lib.rs:50:5 BRANCH true:5 false:0\n\
         Lines: 90.0% | Regions: 85.0% | Branches: 75.0% | Functions: 100.0%"
    );
}

#[test]
fn all_covered_without_branch_data_is_the_summary_line() {
    let json = document(
        &file_record("src/lib.rs", "[1,1,1,true,true,false],[5,2,0,false,false,false]", ""),
        "",
    );
    assert_eq!(
        analyze_and_format(&json).unwrap(),
        "Lines: 90.0% | Regions: 85.0% | Functions: 100.0%"
    );
}

#[test]
fn branch_counter_of_no_branches_is_no_branch_data() {
    let json = document("", r#","branches":{"count":0,"covered":0,"percent":0.0}"#);
    assert_eq!(
        analyze_and_format(&json).unwrap(),
        "Lines: 90.0% | Regions: 85.0% | Functions: 100.0%"
    );
}

#[test]
fn summary_only_file_still_reports_branches() {
    // A file record without `segments`, as version 3.1.0 may write it.
    let json = r#"{"data":[{"files":[{"filename":"src/only.rs","branches":[[3,9,3,14,0,2,0,0,4]],"summary":{}}],"totals":{"lines":{"count":2,"covered":1,"percent":50}}}],"type":"llvm.coverage.json.export","version":"3.1.0"}"#;
    assert_eq!(
        analyze_and_format(json).unwrap(),
        "src/only.rs:3:9 BRANCH true:0 false:2\nLines: 50.0% | Regions: 0.0% | Functions: 0.0%"
    );
}

#[test]
fn same_text_same_output() {
    let json = document(
        &file_record(
            "src/lib.rs",
            "[2,1,0,true,true,false],[4,1,0,false,false,false]",
            "[1,2,1,3,0,0,0,0,4]",
        ),
        "",
    );
    let first = analyze_and_format(&json).unwrap();
    let second = analyze_and_format(&json).unwrap();
    assert_eq!(first, second);
    assert_eq!(
        first,
        "src/lib.rs:2-4 UNCOVERED\n\
         src/lib.rs:1:2 BRANCH true:0 false:0\n\
         Lines: 90.0% | Regions: 85.0% | Functions: 100.0%"
    );
    let bad = analyze_and_format("[1,").unwrap_err();
    assert_eq!(bad, analyze_and_format("[1,").unwrap_err());
}

#[test]
fn analyze_json_keeps_the_order_of_the_files() {
    let files = format!(
        "{},{}",
        file_record("src/z.rs", "[1,1,0,true,true,false]", ""),
        file_record("src/a.rs", "[2,1,0,true,true,false]", "")
    );
    let result = analyze_json(&document(&files, "")).unwrap();
    let names: Vec<&str> = result.files.iter().map(|file| file.filename.as_str()).collect();
    assert_eq!(names, vec!["src/z.rs", "src/a.rs"]);
}
