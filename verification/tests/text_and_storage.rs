use rustcompiler::blob_store::collect_upload_fields;
use rustcompiler::blob_store::finish_upload_request;
use rustcompiler::blob_store::interpret_info_response;
use rustcompiler::blob_store::interpret_retrieve_response;
use rustcompiler::blob_store::interpret_upload_response;
use rustcompiler::blob_store::BlobStoreModel;
use rustcompiler::blob_store::WalrusClient;
use rustcompiler::blob_store::WalrusErrorResponse;
use rustcompiler::blob_store::WalrusMetadata;
use rustcompiler::blob_store::WalrusUploadResponse;
use rustcompiler::blob_store::WalrusInfoResponse;
use rustcompiler::errors::ErrorKind;
use rustcompiler::intake::SubmissionPart;
use rustcompiler::text::base_name;
use rustcompiler::text::contains_str;
use rustcompiler::text::is_safe_base;
use rustcompiler::text::join_with_commas;
use rustcompiler::text::parse_args;
use rustcompiler::text::split_and_trim;
use rustcompiler::text::str_eq;
use rustcompiler::text::trim;

fn strings(items: &[&str]) -> Vec<String> {
    items.iter().map(|s| String::from(*s)).collect()
}

fn part(name: &str, data: &[u8]) -> SubmissionPart {
    SubmissionPart { name: String::from(name), data: data.to_vec() }
}

// ---------------------------------------------------------------------------
// Text utilities
// ---------------------------------------------------------------------------

#[test]
fn parse_args_splits_flag_and_value_in_order() {
    assert_eq!(parse_args("--flag value"), strings(&["--flag", "value"]));
}

#[test]
fn parse_args_handles_runs_and_edges() {
    assert_eq!(parse_args(""), strings(&[]));
    assert_eq!(parse_args("   \t\n  "), strings(&[]));
    assert_eq!(parse_args("  a \t b\nc  "), strings(&["a", "b", "c"]));
    assert_eq!(parse_args("35"), strings(&["35"]));
}

#[test]
fn trim_removes_surrounding_whitespace_only() {
    assert_eq!(trim("  832040\n"), "832040");
    assert_eq!(trim("a b"), "a b");
    assert_eq!(trim("   "), "");
    assert_eq!(trim(""), "");
    assert_eq!(trim("\u{a0}x\u{3000}"), "x");
}

#[test]
fn split_and_trim_tags() {
    assert_eq!(split_and_trim("rust-compiler, upload"), strings(&["rust-compiler", "upload"]));
    assert_eq!(split_and_trim("a,,b"), strings(&["a", "", "b"]));
    assert_eq!(split_and_trim(""), strings(&[""]));
    assert_eq!(split_and_trim(" one "), strings(&["one"]));
    assert_eq!(split_and_trim("a,"), strings(&["a", ""]));
}

#[test]
fn join_with_commas_inverts_splitting() {
    assert_eq!(join_with_commas(&strings(&["a", "b", "c"])), "a,b,c");
    assert_eq!(join_with_commas(&strings(&[])), "");
    assert_eq!(join_with_commas(&strings(&["solo"])), "solo");
    let joined = join_with_commas(&strings(&["x", "y"]));
    assert_eq!(split_and_trim(&joined), strings(&["x", "y"]));
}

#[test]
fn contains_str_finds_the_panic_marker() {
    assert!(contains_str("thread 'main' panicked at src/main.rs", "panicked at"));
    assert!(!contains_str("exited normally", "panicked at"));
    assert!(contains_str("abc", ""));
    assert!(!contains_str("ab", "abc"));
    assert!(contains_str("aab", "ab"));
}

#[test]
fn base_name_strips_directories() {
    assert_eq!(base_name("main.rs"), "main.rs");
    assert_eq!(base_name("../../etc/passwd"), "passwd");
    assert_eq!(base_name("a\\b\\c.rs"), "c.rs");
    assert_eq!(base_name("dir/"), "");
}

#[test]
fn safe_base_rejects_dot_names() {
    assert!(!is_safe_base(""));
    assert!(!is_safe_base("."));
    assert!(!is_safe_base(".."));
    assert!(is_safe_base("..."));
    assert!(is_safe_base("ok.rs"));
}

#[test]
fn str_eq_is_exact() {
    assert!(str_eq("abc", "abc"));
    assert!(!str_eq("abc", "abd"));
    assert!(!str_eq("abc", "ab"));
    assert!(str_eq("", ""));
}

// ---------------------------------------------------------------------------
// Blob store client
// ---------------------------------------------------------------------------

#[test]
fn client_builds_endpoint_urls() {
    let c = WalrusClient::new(String::from("http://localhost:3002"));
    assert_eq!(c.retrieve_url("blob1"), "http://localhost:3002/retrieve/blob1");
    assert_eq!(c.info_url("blob1"), "http://localhost:3002/info/blob1");
    let form = c.upload_form("proj.tar.gz", "a project", &strings(&["rust-compiler", "upload"]));
    assert_eq!(form.url, "http://localhost:3002/upload");
    assert_eq!(form.file_name, "proj.tar.gz");
    assert_eq!(form.description, "a project");
    assert_eq!(form.tags_field, "rust-compiler,upload");
}

fn upload_body() -> WalrusUploadResponse {
    WalrusUploadResponse {
        success: true,
        blobId: String::from("b1"),
        fileName: String::from("f.tar.gz"),
        fileSize: 3,
        description: String::from("d"),
        tags: strings(&["t"]),
        message: String::from("ok"),
    }
}

#[test]
fn upload_response_success_passes_body_through() {
    let r = interpret_upload_response(true, Some(upload_body()), None).unwrap();
    assert_eq!(r.blobId, "b1");
    assert_eq!(r.description, "d");
}

#[test]
fn upload_response_unparsable_body_is_storage_error() {
    let e = interpret_upload_response(true, None, None).unwrap_err();
    assert_eq!(e.kind(), ErrorKind::WalrusApiError);
    assert_eq!(e.message(), "Failed to parse upload response");
}

#[test]
fn upload_response_rejection_uses_reported_error() {
    let body = WalrusErrorResponse { error: String::from("quota exceeded"), details: None };
    let e = interpret_upload_response(false, None, Some(body)).unwrap_err();
    assert_eq!(e.kind(), ErrorKind::WalrusApiError);
    assert_eq!(e.message(), "Upload failed: quota exceeded");
    let e2 = interpret_upload_response(false, None, None).unwrap_err();
    assert_eq!(e2.message(), "Upload failed: Unknown error");
}

#[test]
fn info_response_cases() {
    let body = WalrusInfoResponse {
        success: true,
        blobId: String::from("b1"),
        metadata: WalrusMetadata {
            description: String::from("d"),
            tags: strings(&["t"]),
            timestamp: None,
        },
        fileSize: 3,
        message: String::from("ok"),
    };
    let ok = interpret_info_response(true, Some(body), None).unwrap();
    assert_eq!(ok.metadata.description, "d");
    let e = interpret_info_response(false, None, None).unwrap_err();
    assert_eq!(e.message(), "Get info failed: Unknown error");
    let e2 = interpret_info_response(true, None, None).unwrap_err();
    assert_eq!(e2.message(), "Failed to parse info response");
}

#[test]
fn retrieve_response_passes_bytes_through() {
    let bytes = interpret_retrieve_response(true, vec![1, 2, 3], None).unwrap();
    assert_eq!(bytes, vec![1, 2, 3]);
    let body = WalrusErrorResponse { error: String::from("not found"), details: None };
    let e = interpret_retrieve_response(false, Vec::new(), Some(body)).unwrap_err();
    assert_eq!(e.kind(), ErrorKind::WalrusApiError);
    assert_eq!(e.message(), "Retrieve failed: not found");
}

// ---------------------------------------------------------------------------
// Upload form intake
// ---------------------------------------------------------------------------

#[test]
fn collect_upload_fields_takes_last_and_ignores_unknown() {
    let parts = vec![
        part("file", &[1, 2]),
        part("description", b"first"),
        part("description", b"second"),
        part("bogus", b"zzz"),
        part("tags", b"a, b"),
    ];
    let f = collect_upload_fields(&parts);
    assert_eq!(f.file.as_deref(), Some([1, 2].as_slice()));
    assert_eq!(f.description.as_deref(), Some(b"second".as_slice()));
    assert_eq!(f.tags.as_deref(), Some(b"a, b".as_slice()));
    assert!(f.file_name.is_none());
}

#[test]
fn finish_upload_request_requires_file() {
    let e = finish_upload_request(None, None, None, None).unwrap_err();
    assert_eq!(e.kind(), ErrorKind::InvalidInput);
    assert_eq!(e.message(), "No file provided");
}

#[test]
fn finish_upload_request_applies_defaults() {
    let req = finish_upload_request(Some(vec![9]), None, None, None).unwrap();
    assert_eq!(req.file_bytes, vec![9]);
    assert_eq!(req.file_name, "uploaded-file.tar.gz");
    assert_eq!(req.description, "Uploaded from Rust Compiler");
    assert_eq!(req.tags, strings(&["rust-compiler", "upload"]));
}

#[test]
fn finish_upload_request_uses_given_fields() {
    let req = finish_upload_request(
        Some(vec![9]),
        Some(String::from("p.tar.gz")),
        Some(String::from("desc")),
        Some(String::from("x , y")),
    )
    .unwrap();
    assert_eq!(req.file_name, "p.tar.gz");
    assert_eq!(req.description, "desc");
    assert_eq!(req.tags, strings(&["x", "y"]));
}

// ---------------------------------------------------------------------------
// Store model round trip
// ---------------------------------------------------------------------------

#[test]
fn upload_then_info_round_trip() {
    let mut store = BlobStoreModel::new();
    let id = store.upload(
        String::from("proj.tar.gz"),
        vec![1, 2, 3],
        String::from("a project"),
        strings(&["rust-compiler", "upload"]),
    );
    let record = store.info(id).unwrap();
    assert_eq!(record.description, "a project");
    assert_eq!(record.tags, strings(&["rust-compiler", "upload"]));
    assert_eq!(record.file_name, "proj.tar.gz");
    assert_eq!(record.data, vec![1, 2, 3]);
    assert!(store.info(id + 1).is_none());
}

#[test]
fn uploads_get_distinct_identifiers() {
    let mut store = BlobStoreModel::new();
    let a = store.upload(String::from("a"), vec![1], String::from("da"), strings(&[]));
    let b = store.upload(String::from("b"), vec![2], String::from("db"), strings(&[]));
    assert_ne!(a, b);
    assert_eq!(store.info(a).unwrap().description, "da");
    assert_eq!(store.info(b).unwrap().description, "db");
}
