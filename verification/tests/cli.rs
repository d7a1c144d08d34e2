use llvm_cov_easy::command::{build_cargo_llvm_cov_args, split_toolchain};

#[test]
fn split_toolchain_with_nightly() {
    let args = vec!["+nightly".to_string(), "--workspace".to_string()];
    let (cargo, rest) = split_toolchain(&args);
    assert_eq!(cargo, vec!["cargo", "+nightly"]);
    assert_eq!(rest, &[String::from("--workspace")]);
}

#[test]
fn split_toolchain_without_toolchain() {
    let args = vec!["--workspace".to_string()];
    let (cargo, rest) = split_toolchain(&args);
    assert_eq!(cargo, vec!["cargo"]);
    assert_eq!(rest, &args[..]);
}

#[test]
fn split_toolchain_empty_args() {
    let args: Vec<String> = vec![];
    let (cargo, rest) = split_toolchain(&args);
    assert_eq!(cargo, vec!["cargo"]);
    assert!(rest.is_empty());
}

#[test]
fn split_toolchain_bare_plus() {
    let args = vec!["+".to_string(), "--workspace".to_string()];
    let (cargo, rest) = split_toolchain(&args);
    assert_eq!(cargo, vec!["cargo"]);
    assert_eq!(rest, &args[..]);
}

#[test]
fn build_args_no_user_args() {
    let user_args: Vec<String> = vec![];
    let (cargo, llvm_args) = build_cargo_llvm_cov_args("nextest", &user_args);
    assert_eq!(cargo, vec!["cargo"]);
    assert_eq!(llvm_args, vec!["llvm-cov", "nextest", "--json"]);
}

#[test]
fn build_args_with_user_args() {
    let user_args = vec![
        "--workspace".to_string(),
        "--branch".to_string(),
        "--no-fail-fast".to_string(),
    ];
    let (cargo, llvm_args) = build_cargo_llvm_cov_args("nextest", &user_args);
    assert_eq!(cargo, vec!["cargo"]);
    assert_eq!(
        llvm_args,
        vec![
            "llvm-cov",
            "nextest",
            "--json",
            "--workspace",
            "--branch",
            "--no-fail-fast"
        ]
    );
}

#[test]
fn build_args_run_subcommand() {
    let user_args = vec!["--".to_string(), "--help".to_string()];
    let (cargo, llvm_args) = build_cargo_llvm_cov_args("run", &user_args);
    assert_eq!(cargo, vec!["cargo"]);
    assert_eq!(llvm_args, vec!["llvm-cov", "run", "--json", "--", "--help"]);
}

#[test]
fn build_args_with_toolchain() {
    let user_args = vec![
        "+nightly".to_string(),
        "--workspace".to_string(),
        "--branch".to_string(),
    ];
    let (cargo, llvm_args) = build_cargo_llvm_cov_args("nextest", &user_args);
    assert_eq!(cargo, vec!["cargo", "+nightly"]);
    assert_eq!(
        llvm_args,
        vec!["llvm-cov", "nextest", "--json", "--workspace", "--branch"]
    );
}

#[test]
fn split_toolchain_plus_only_in_later_argument() {
    let args = vec!["--workspace".to_string(), "+nightly".to_string()];
    let (cargo, rest) = split_toolchain(&args);
    assert_eq!(cargo, vec!["cargo"]);
    assert_eq!(rest, &args[..]);
}

#[test]
fn split_toolchain_counts_characters_not_bytes() {
    // One character after the plus, though it takes two bytes.
    let args = vec!["+é".to_string()];
    let (cargo, rest) = split_toolchain(&args);
    assert_eq!(cargo, vec!["cargo", "+é"]);
    assert!(rest.is_empty());
}

#[test]
fn build_args_toolchain_alone() {
    let user_args = vec!["+stable".to_string()];
    let (cargo, llvm_args) = build_cargo_llvm_cov_args("run", &user_args);
    assert_eq!(cargo, vec!["cargo", "+stable"]);
    assert_eq!(llvm_args, vec!["llvm-cov", "run", "--json"]);
}
