use rustcompiler::classify::classify;
use rustcompiler::classify::ExecutionResponse;
use rustcompiler::classify::RunnerResult;
use rustcompiler::classify::PANIC_EXIT_CODE;
use rustcompiler::errors::CompilerApiError;
use rustcompiler::errors::ErrorKind;
use rustcompiler::intake::intake;
use rustcompiler::intake::IntakePlan;
use rustcompiler::intake::SubmissionPart;
use rustcompiler::intake::UnknownPartPolicy;
use rustcompiler::invoke::build_extract_invocation;
use rustcompiler::invoke::build_run_invocation;
use rustcompiler::invoke::check_required_files;
use rustcompiler::invoke::interpret_extraction;
use rustcompiler::normalize::normalize;
use rustcompiler::normalize::DirListing;
use rustcompiler::paths::path_join;
use rustcompiler::paths::project_dir_path;
use rustcompiler::paths::retrieved_archive_name;

fn part(name: &str, data: &[u8]) -> SubmissionPart {
    SubmissionPart { name: String::from(name), data: data.to_vec() }
}

fn strings(items: &[&str]) -> Vec<String> {
    items.iter().map(|s| String::from(*s)).collect()
}

fn completed(exit_code: Option<i32>, stdout: &str, stderr: &str) -> RunnerResult {
    RunnerResult::Completed {
        exit_code,
        stdout: String::from(stdout),
        stderr: String::from(stderr),
    }
}

// ---------------------------------------------------------------------------
// Outcome classification
// ---------------------------------------------------------------------------

#[test]
fn classify_success_trims_output() {
    let out = classify(&completed(Some(0), "  832040\n", "")).unwrap();
    assert_eq!(out.status, "success");
    assert_eq!(out.output, "832040");
    assert_eq!(out.quote, "");
}

#[test]
fn classify_zero_exit_empty_streams_is_success() {
    let out = classify(&completed(Some(0), "", "")).unwrap();
    assert_eq!(out.status, "success");
    assert_eq!(out.output, "");
}

#[test]
fn classify_panic_sentinel_exit_code() {
    let err = classify(&completed(Some(PANIC_EXIT_CODE), "", "")).unwrap_err();
    assert_eq!(err.kind(), ErrorKind::PanicError);
    assert_eq!(err.message(), "Panic: ");
}

#[test]
fn classify_nonzero_exit_is_execution_error() {
    let err = classify(&completed(Some(1), "", "")).unwrap_err();
    assert_eq!(err.kind(), ErrorKind::ExecutionError);
    assert_eq!(err.message(), "Execution error: ");
}

#[test]
fn classify_panic_marker_beats_exit_code() {
    let stderr = "thread 'main' panicked at src/main.rs:3:5";
    let err = classify(&completed(Some(1), "", stderr)).unwrap_err();
    assert_eq!(err.kind(), ErrorKind::PanicError);
    assert_eq!(err.message(), &format!("Panic: {}", stderr));
}

#[test]
fn classify_signal_death_without_marker_is_execution_error() {
    let err = classify(&completed(None, "", "killed")).unwrap_err();
    assert_eq!(err.kind(), ErrorKind::ExecutionError);
    assert_eq!(err.message(), "Execution error: killed");
}

#[test]
fn classify_launch_failure_is_internal() {
    let r = RunnerResult::LaunchFailed { message: String::from("No such file or directory") };
    let err = classify(&r).unwrap_err();
    assert_eq!(err.kind(), ErrorKind::InternalError);
    assert_eq!(err.message(), "Failed to execute project: No such file or directory");
}

#[test]
fn classification_is_deterministic() {
    for _ in 0..3 {
        let a = classify(&completed(Some(PANIC_EXIT_CODE), "x", ""));
        let b = classify(&completed(Some(PANIC_EXIT_CODE), "y", ""));
        assert_eq!(a.unwrap_err().kind(), ErrorKind::PanicError);
        assert_eq!(b.unwrap_err().kind(), ErrorKind::PanicError);
    }
}

#[test]
fn execution_response_success_shape() {
    let r = ExecutionResponse::success(String::from("42"));
    assert_eq!(r.status, "success");
    assert_eq!(r.output, "42");
    assert_eq!(r.quote, "");
}

// ---------------------------------------------------------------------------
// Submission intake
// ---------------------------------------------------------------------------

fn intake_ok(parts: Vec<SubmissionPart>, policy: UnknownPartPolicy) -> IntakePlan {
    intake(&parts, policy).unwrap()
}

fn write_paths(plan: &IntakePlan) -> Vec<&str> {
    plan.writes.iter().map(|w| w.path.as_str()).collect()
}

#[test]
fn intake_missing_manifest_is_invalid_input() {
    let parts = vec![part("main.rs", b"fn main() {}")];
    let err = intake(&parts, UnknownPartPolicy::Reject).unwrap_err();
    assert_eq!(err.kind(), ErrorKind::InvalidInput);
    assert_eq!(err.message(), "Missing manifest file");
}

#[test]
fn intake_empty_submission_is_invalid_input() {
    let parts: Vec<SubmissionPart> = Vec::new();
    let err = intake(&parts, UnknownPartPolicy::Reject).unwrap_err();
    assert_eq!(err.kind(), ErrorKind::InvalidInput);
}

#[test]
fn intake_missing_source_and_archive_is_invalid_input() {
    let parts = vec![part("Cargo.toml", b"[package]")];
    let err = intake(&parts, UnknownPartPolicy::Reject).unwrap_err();
    assert_eq!(err.kind(), ErrorKind::InvalidInput);
    assert_eq!(err.message(), "Missing source file");
}

#[test]
fn intake_manifest_and_primary_source_accepted() {
    let parts = vec![part("Cargo.toml", b"[package]"), part("main.rs", b"fn main() {}")];
    let plan = intake_ok(parts, UnknownPartPolicy::Reject);
    assert_eq!(write_paths(&plan), vec!["Cargo.toml", "src/main.rs"]);
    assert!(!plan.has_archive);
    assert!(plan.args_data.is_none());
    assert_eq!(plan.writes[1].data, b"fn main() {}");
}

#[test]
fn intake_archive_with_manifest_accepted() {
    let parts = vec![part("tar_file", &[0x1f, 0x8b, 1]), part("Cargo.toml", b"[package]")];
    let plan = intake_ok(parts, UnknownPartPolicy::Reject);
    assert_eq!(write_paths(&plan), vec!["project.tar.gz", "Cargo.toml"]);
    assert!(plan.has_archive);
}

#[test]
fn intake_args_part_is_kept_raw() {
    let parts = vec![
        part("Cargo.toml", b"[package]"),
        part("main.rs", b"fn main() {}"),
        part("args", b"--flag value"),
    ];
    let plan = intake_ok(parts, UnknownPartPolicy::Reject);
    assert_eq!(plan.args_data.as_deref(), Some(b"--flag value".as_slice()));
}

#[test]
fn intake_later_args_part_wins() {
    let parts = vec![
        part("Cargo.toml", b"[package]"),
        part("main.rs", b"fn main() {}"),
        part("args", b"one"),
        part("args", b"two"),
    ];
    let plan = intake_ok(parts, UnknownPartPolicy::Reject);
    assert_eq!(plan.args_data.as_deref(), Some(b"two".as_slice()));
}

#[test]
fn intake_env_and_aux_source_parts_routed() {
    let parts = vec![
        part("Cargo.toml", b"[package]"),
        part("main.rs", b"fn main() {}"),
        part(".env", b"KEY=v"),
        part("util.rs", b"pub fn u() {}"),
    ];
    let plan = intake_ok(parts, UnknownPartPolicy::Reject);
    assert_eq!(write_paths(&plan), vec!["Cargo.toml", "src/main.rs", ".env", "src/util.rs"]);
}

#[test]
fn intake_unknown_part_rejected_under_reject_policy() {
    let parts = vec![part("Cargo.toml", b"[package]"), part("notes.txt", b"hi")];
    let err = intake(&parts, UnknownPartPolicy::Reject).unwrap_err();
    assert_eq!(err.kind(), ErrorKind::InvalidInput);
    assert_eq!(err.message(), "Unknown field: notes.txt");
}

#[test]
fn intake_unknown_part_routed_under_routing_policy() {
    let parts = vec![
        part("Cargo.toml", b"[package]"),
        part("main.rs", b"fn main() {}"),
        part("notes.txt", b"hi"),
    ];
    let plan = intake_ok(parts, UnknownPartPolicy::RouteToSource);
    assert_eq!(write_paths(&plan), vec!["Cargo.toml", "src/main.rs", "src/notes.txt"]);
}

#[test]
fn intake_strips_directory_components_from_part_names() {
    let parts = vec![
        part("Cargo.toml", b"[package]"),
        part("main.rs", b"fn main() {}"),
        part("../../etc/evil.rs", b"x"),
        part("..\\..\\windows\\boot.rs", b"y"),
        part("deep/dir/extra.txt", b"z"),
    ];
    let plan = intake_ok(parts, UnknownPartPolicy::RouteToSource);
    assert_eq!(
        write_paths(&plan),
        vec!["Cargo.toml", "src/main.rs", "src/evil.rs", "src/boot.rs", "src/extra.txt"]
    );
}

#[test]
fn intake_rejects_name_with_empty_base() {
    let parts = vec![part("Cargo.toml", b"[package]"), part("dir/..", b"x")];
    let err = intake(&parts, UnknownPartPolicy::RouteToSource).unwrap_err();
    assert_eq!(err.kind(), ErrorKind::InvalidInput);
    assert_eq!(err.message(), "Invalid file name: dir/..");
}

// ---------------------------------------------------------------------------
// Archive normalization
// ---------------------------------------------------------------------------

fn listing(root: &[&str], src: &[&str]) -> DirListing {
    DirListing { root_files: strings(root), src_files: strings(src) }
}

#[test]
fn normalize_canonical_layout_is_noop() {
    let l = listing(&["Cargo.toml", ".env"], &["main.rs", "util.rs"]);
    let (after, moved) = normalize(&l);
    assert!(moved.is_empty());
    assert_eq!(after.root_files, strings(&["Cargo.toml", ".env"]));
    assert_eq!(after.src_files, strings(&["main.rs", "util.rs"]));
}

#[test]
fn normalize_moves_root_source_file() {
    let l = listing(&["main.rs", "Cargo.toml"], &[]);
    let (after, moved) = normalize(&l);
    assert_eq!(moved, strings(&["main.rs"]));
    assert_eq!(after.root_files, strings(&["Cargo.toml"]));
    assert_eq!(after.src_files, strings(&["main.rs"]));
}

#[test]
fn normalize_twice_moves_nothing_more() {
    let l = listing(&["a.rs", "b.rs", "Cargo.toml"], &["main.rs"]);
    let (once, moved_once) = normalize(&l);
    assert_eq!(moved_once, strings(&["a.rs", "b.rs"]));
    let (twice, moved_twice) = normalize(&once);
    assert!(moved_twice.is_empty());
    assert_eq!(twice.root_files, once.root_files);
    assert_eq!(twice.src_files, once.src_files);
}

#[test]
fn normalize_ignores_bare_extension_name() {
    // ".rs" has no stem, so it does not count as a source file.
    let l = listing(&[".rs"], &[]);
    let (after, moved) = normalize(&l);
    assert!(moved.is_empty());
    assert_eq!(after.root_files, strings(&[".rs"]));
}

// ---------------------------------------------------------------------------
// Invocation building and extraction results
// ---------------------------------------------------------------------------

#[test]
fn run_invocation_passes_arguments_verbatim() {
    let inv = build_run_invocation("./projects/u/p", &strings(&["--flag", "value"]));
    assert_eq!(inv.program, "./runner.sh");
    assert_eq!(inv.workdir, ".");
    assert_eq!(inv.args, strings(&["run", "./projects/u/p", "--flag", "value"]));
}

#[test]
fn run_invocation_without_arguments() {
    let inv = build_run_invocation("./projects/u/p", &Vec::new());
    assert_eq!(inv.args, strings(&["run", "./projects/u/p"]));
}

#[test]
fn extract_invocation_shape() {
    let inv = build_extract_invocation("./projects/u/p/project.tar.gz", "./projects/u/p");
    assert_eq!(inv.program, "tar");
    assert_eq!(
        inv.args,
        strings(&["-xzf", "./projects/u/p/project.tar.gz", "-C", "./projects/u/p"])
    );
}

#[test]
fn extraction_failure_is_internal_error() {
    let err = interpret_extraction(false, "gzip: invalid magic").unwrap_err();
    assert_eq!(err.kind(), ErrorKind::InternalError);
    assert_eq!(err.message(), "Tar decompression failed: gzip: invalid magic");
    assert!(interpret_extraction(true, "").is_ok());
}

#[test]
fn required_files_gate() {
    assert!(check_required_files(true, true).is_ok());
    let e1 = check_required_files(false, true).unwrap_err();
    assert_eq!(e1.kind(), ErrorKind::InvalidInput);
    assert_eq!(e1.message(), "Missing Cargo.toml file after decompression");
    let e2 = check_required_files(true, false).unwrap_err();
    assert_eq!(e2.message(), "Missing src/main.rs file after decompression");
}

// ---------------------------------------------------------------------------
// Paths
// ---------------------------------------------------------------------------

#[test]
fn project_dir_path_shape() {
    assert_eq!(project_dir_path("user123", "fibonacci-project"), "./projects/user123/fibonacci-project");
}

#[test]
fn distinct_pairs_give_distinct_paths() {
    let a = project_dir_path("alice", "proj");
    let b = project_dir_path("bob", "proj");
    let c = project_dir_path("alice", "proj2");
    assert_ne!(a, b);
    assert_ne!(a, c);
    assert_ne!(path_join(&a, "src/main.rs"), path_join(&b, "src/main.rs"));
}

#[test]
fn path_join_single_separator() {
    assert_eq!(path_join("./projects/u/p", "project.tar.gz"), "./projects/u/p/project.tar.gz");
}

#[test]
fn retrieved_archive_name_shape() {
    assert_eq!(retrieved_archive_name("blob42"), "retrieved_blob42.tar.gz");
}

// ---------------------------------------------------------------------------
// Error taxonomy
// ---------------------------------------------------------------------------

#[test]
fn error_kinds_map_to_http_status() {
    let cases: Vec<(CompilerApiError, u16)> = vec![
        (CompilerApiError::InvalidInput { message: String::from("m") }, 400),
        (CompilerApiError::ExecutionError { message: String::from("m") }, 400),
        (CompilerApiError::FileSystemError { message: String::from("m") }, 500),
        (CompilerApiError::PanicError { message: String::from("m") }, 500),
        (CompilerApiError::InternalError { message: String::from("m") }, 500),
        (CompilerApiError::WalrusApiError { message: String::from("m") }, 500),
    ];
    for (e, status) in cases {
        assert_eq!(e.http_status(), status);
        assert_eq!(e.message(), "m");
    }
}
