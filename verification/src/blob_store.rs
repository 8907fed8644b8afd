//! The blob-store client: the requests it sends to the remote storage
//! service, the interpretation of the responses, and a reference model of the
//! store's documented contract.
//!
//! The client performs exactly one round trip per operation, with no internal
//! retry. Transport failures and API-reported failures both map into the
//! store's error kind; the interpretation functions below say exactly which
//! message each case carries.

use vstd::prelude::*;
use crate::errors::CompilerApiError;
use crate::errors::ErrorKind;
use crate::intake::PartView;
use crate::intake::SubmissionPart;
use crate::text::clone_bytes;
use crate::text::join_commas;
use crate::text::join_with_commas;
use crate::text::split_and_trim;
use crate::text::split_trimmed;
use crate::text::str_eq;

verus! {

/// Metadata the store keeps beside a blob.
#[allow(non_snake_case)]
#[derive(Debug)]
pub struct WalrusMetadata {
    pub description: String,
    pub tags: Vec<String>,
    pub timestamp: Option<String>,
}

/// The store's answer to a successful upload.
#[allow(non_snake_case)]
#[derive(Debug)]
pub struct WalrusUploadResponse {
    pub success: bool,
    pub blobId: String,
    pub fileName: String,
    pub fileSize: u64,
    pub description: String,
    pub tags: Vec<String>,
    pub message: String,
}

/// The store's answer to a metadata lookup.
#[allow(non_snake_case)]
#[derive(Debug)]
pub struct WalrusInfoResponse {
    pub success: bool,
    pub blobId: String,
    pub metadata: WalrusMetadata,
    pub fileSize: u64,
    pub message: String,
}

/// The structured error body of a rejected request.
#[allow(non_snake_case)]
#[derive(Debug)]
pub struct WalrusErrorResponse {
    pub error: String,
    pub details: Option<String>,
}

/// The client side of the store: it knows the base URL and builds the
/// request each operation sends. The transport that carries the request is
/// the caller's.
#[derive(Debug)]
pub struct WalrusClient {
    pub base_url: String,
}

/// The form fields of an upload request.
#[derive(Debug)]
pub struct UploadForm {
    pub url: String,
    pub file_name: String,
    pub description: String,
    /// The tag list, serialized with commas as the store's form expects.
    pub tags_field: String,
}

impl WalrusClient {
    pub fn new(base_url: String) -> (c: WalrusClient)
        ensures
            c.base_url@ == base_url@,
    {
        WalrusClient { base_url }
    }

    /// The upload endpoint and the form fields for one upload.
    pub fn upload_form(&self, file_name: &str, description: &str, tags: &Vec<String>) -> (f:
        UploadForm)
        ensures
            f.url@ == self.base_url@ + "/upload"@,
            f.file_name@ == file_name@,
            f.description@ == description@,
            f.tags_field@ == join_commas(tags.deep_view()),
    {
        let mut url = self.base_url.clone();
        url.append("/upload");
        UploadForm {
            url,
            file_name: file_name.to_owned(),
            description: description.to_owned(),
            tags_field: join_with_commas(tags),
        }
    }

    /// The URL a blob's bytes are fetched from.
    pub fn retrieve_url(&self, blob_id: &str) -> (r: String)
        ensures
            r@ == self.base_url@ + "/retrieve/"@ + blob_id@,
    {
        let mut url = self.base_url.clone();
        url.append("/retrieve/");
        url.append(blob_id);
        url
    }

    /// The URL a blob's metadata is fetched from.
    pub fn info_url(&self, blob_id: &str) -> (r: String)
        ensures
            r@ == self.base_url@ + "/info/"@ + blob_id@,
    {
        let mut url = self.base_url.clone();
        url.append("/info/");
        url.append(blob_id);
        url
    }
}

/// The message of a rejected request: the store's reported error when its
/// error body could be read, and a fixed fallback otherwise.
pub open spec fn api_error_message(
    prefix: Seq<char>,
    error_body: Option<WalrusErrorResponse>,
) -> Seq<char> {
    match error_body {
        Some(e) => prefix + e.error@,
        None => prefix + "Unknown error"@,
    }
}

/// Interprets the response to an upload: the parsed body on a success status;
/// otherwise the store's error kind with the exact message of the case.
pub fn interpret_upload_response(
    status_success: bool,
    body: Option<WalrusUploadResponse>,
    error_body: Option<WalrusErrorResponse>,
) -> (r: Result<WalrusUploadResponse, CompilerApiError>)
    ensures
        r is Ok <==> status_success && body is Some,
        status_success ==> (match (r, body) {
            (Ok(resp), Some(b)) => resp == b,
            (Err(e), None) => e.kind_spec() == ErrorKind::WalrusApiError && e.message_spec()
                == "Failed to parse upload response"@,
            _ => false,
        }),
        !status_success ==> (r matches Err(e) && e.kind_spec() == ErrorKind::WalrusApiError
            && e.message_spec() == api_error_message("Upload failed: "@, error_body)),
{
    if status_success {
        match body {
            Some(b) => Ok(b),
            None => Err(
                CompilerApiError::WalrusApiError {
                    message: String::from_str("Failed to parse upload response"),
                },
            ),
        }
    } else {
        Err(CompilerApiError::WalrusApiError { message: rejection_message("Upload failed: ", error_body) })
    }
}

/// Interprets the response to a metadata lookup, as `interpret_upload_response`
/// does for uploads.
pub fn interpret_info_response(
    status_success: bool,
    body: Option<WalrusInfoResponse>,
    error_body: Option<WalrusErrorResponse>,
) -> (r: Result<WalrusInfoResponse, CompilerApiError>)
    ensures
        r is Ok <==> status_success && body is Some,
        status_success ==> (match (r, body) {
            (Ok(resp), Some(b)) => resp == b,
            (Err(e), None) => e.kind_spec() == ErrorKind::WalrusApiError && e.message_spec()
                == "Failed to parse info response"@,
            _ => false,
        }),
        !status_success ==> (r matches Err(e) && e.kind_spec() == ErrorKind::WalrusApiError
            && e.message_spec() == api_error_message("Get info failed: "@, error_body)),
{
    if status_success {
        match body {
            Some(b) => Ok(b),
            None => Err(
                CompilerApiError::WalrusApiError {
                    message: String::from_str("Failed to parse info response"),
                },
            ),
        }
    } else {
        Err(
            CompilerApiError::WalrusApiError {
                message: rejection_message("Get info failed: ", error_body),
            },
        )
    }
}

/// Interprets the response to a retrieval: the raw body bytes on a success
/// status, passed through unchanged.
pub fn interpret_retrieve_response(
    status_success: bool,
    body: Vec<u8>,
    error_body: Option<WalrusErrorResponse>,
) -> (r: Result<Vec<u8>, CompilerApiError>)
    ensures
        r is Ok <==> status_success,
        status_success ==> (r matches Ok(bytes) && bytes@ == body@),
        !status_success ==> (r matches Err(e) && e.kind_spec() == ErrorKind::WalrusApiError
            && e.message_spec() == api_error_message("Retrieve failed: "@, error_body)),
{
    if status_success {
        Ok(body)
    } else {
        Err(
            CompilerApiError::WalrusApiError {
                message: rejection_message("Retrieve failed: ", error_body),
            },
        )
    }
}

fn rejection_message(prefix: &str, error_body: Option<WalrusErrorResponse>) -> (m: String)
    ensures
        m@ == api_error_message(prefix@, error_body),
{
    let mut m = prefix.to_owned();
    match error_body {
        Some(e) => m.append(e.error.as_str()),
        None => m.append("Unknown error"),
    }
    m
}

// ---------------------------------------------------------------------------
// The upload endpoint's own intake
// ---------------------------------------------------------------------------

/// The raw fields of an upload request, each the bytes of the last part that
/// carried its name; parts with other names are ignored.
#[derive(Debug)]
pub struct UploadFields {
    pub file: Option<Vec<u8>>,
    pub file_name: Option<Vec<u8>>,
    pub description: Option<Vec<u8>>,
    pub tags: Option<Vec<u8>>,
}

/// Mathematical image of the collected fields.
pub struct UploadFieldsView {
    pub file: Option<Seq<u8>>,
    pub file_name: Option<Seq<u8>>,
    pub description: Option<Seq<u8>>,
    pub tags: Option<Seq<u8>>,
}

impl View for UploadFields {
    type V = UploadFieldsView;

    open spec fn view(&self) -> UploadFieldsView {
        UploadFieldsView {
            file: match self.file {
                Some(v) => Some(v@),
                None => None,
            },
            file_name: match self.file_name {
                Some(v) => Some(v@),
                None => None,
            },
            description: match self.description {
                Some(v) => Some(v@),
                None => None,
            },
            tags: match self.tags {
                Some(v) => Some(v@),
                None => None,
            },
        }
    }
}

pub open spec fn upload_fields_init() -> UploadFieldsView {
    UploadFieldsView { file: None, file_name: None, description: None, tags: None }
}

pub open spec fn upload_fields_step(st: UploadFieldsView, p: PartView) -> UploadFieldsView {
    if p.name == "file"@ {
        UploadFieldsView { file: Some(p.data), ..st }
    } else if p.name == "fileName"@ {
        UploadFieldsView { file_name: Some(p.data), ..st }
    } else if p.name == "description"@ {
        UploadFieldsView { description: Some(p.data), ..st }
    } else if p.name == "tags"@ {
        UploadFieldsView { tags: Some(p.data), ..st }
    } else {
        st
    }
}

pub open spec fn upload_fields_spec(parts: Seq<PartView>) -> UploadFieldsView
    decreases parts.len(),
{
    if parts.len() == 0 {
        upload_fields_init()
    } else {
        upload_fields_step(upload_fields_spec(parts.drop_last()), parts.last())
    }
}

/// Collects the named fields of an upload request, in arrival order, later
/// parts of the same name overwriting earlier ones and unknown names silently
/// ignored.
pub fn collect_upload_fields(parts: &Vec<SubmissionPart>) -> (r: UploadFields)
    ensures
        r@ == upload_fields_spec(parts.deep_view()),
{
    let ghost pseq = parts.deep_view();
    let mut r = UploadFields { file: None, file_name: None, description: None, tags: None };
    proof {
        assert(pseq.take(0) =~= Seq::<PartView>::empty());
    }
    let mut idx: usize = 0;
    while idx < parts.len()
        invariant
            0 <= idx <= parts@.len(),
            pseq == parts.deep_view(),
            r@ == upload_fields_spec(pseq.take(idx as int)),
        decreases parts@.len() - idx,
    {
        proof {
            assert(pseq.take(idx + 1).drop_last() =~= pseq.take(idx as int));
            assert(pseq.take(idx + 1).last() == pseq[idx as int]);
        }
        let part = &parts[idx];
        proof {
            assert(part@ == pseq[idx as int]);
        }
        if str_eq(part.name.as_str(), "file") {
            r.file = Some(clone_bytes(&part.data));
        } else if str_eq(part.name.as_str(), "fileName") {
            r.file_name = Some(clone_bytes(&part.data));
        } else if str_eq(part.name.as_str(), "description") {
            r.description = Some(clone_bytes(&part.data));
        } else if str_eq(part.name.as_str(), "tags") {
            r.tags = Some(clone_bytes(&part.data));
        }
        idx += 1;
    }
    proof {
        assert(pseq.take(parts@.len() as int) =~= pseq);
    }
    r
}

/// A validated upload: the bytes and the metadata that will accompany them.
#[derive(Debug)]
pub struct UploadRequest {
    pub file_bytes: Vec<u8>,
    pub file_name: String,
    pub description: String,
    pub tags: Vec<String>,
}

/// Completes an upload request from its decoded fields: a request without
/// file bytes is invalid input; an absent file name, description or tag list
/// falls back to its fixed default, and the tag list is split on commas with
/// each tag trimmed.
pub fn finish_upload_request(
    file: Option<Vec<u8>>,
    file_name: Option<String>,
    description: Option<String>,
    tags_text: Option<String>,
) -> (r: Result<UploadRequest, CompilerApiError>)
    ensures
        r is Ok <==> file is Some,
        r matches Err(e) ==> e.kind_spec() == ErrorKind::InvalidInput && e.message_spec()
            == "No file provided"@,
        r matches Ok(req) ==> ({
            &&& (match file {
                Some(b) => req.file_bytes@ == b@,
                None => false,
            })
            &&& req.file_name@ == (match file_name {
                Some(n) => n@,
                None => "uploaded-file.tar.gz"@,
            })
            &&& req.description@ == (match description {
                Some(d) => d@,
                None => "Uploaded from Rust Compiler"@,
            })
            &&& req.tags.deep_view() == (match tags_text {
                Some(t) => split_trimmed(t@),
                None => seq!["rust-compiler"@, "upload"@],
            })
        }),
{
    let file_bytes = match file {
        Some(b) => b,
        None => {
            return Err(
                CompilerApiError::InvalidInput { message: String::from_str("No file provided") },
            );
        },
    };
    let file_name = match file_name {
        Some(n) => n,
        None => String::from_str("uploaded-file.tar.gz"),
    };
    let description = match description {
        Some(d) => d,
        None => String::from_str("Uploaded from Rust Compiler"),
    };
    let tags = match tags_text {
        Some(t) => split_and_trim(t.as_str()),
        None => {
            let mut v: Vec<String> = Vec::new();
            v.push(String::from_str("rust-compiler"));
            v.push(String::from_str("upload"));
            proof {
                assert(v.deep_view() =~= seq!["rust-compiler"@, "upload"@]);
            }
            v
        },
    };
    Ok(UploadRequest { file_bytes, file_name, description, tags })
}

// ---------------------------------------------------------------------------
// Reference model of the store
// ---------------------------------------------------------------------------

/// One stored blob: its bytes and the metadata the store promises to echo.
#[derive(Debug)]
pub struct BlobRecord {
    pub file_name: String,
    pub data: Vec<u8>,
    pub description: String,
    pub tags: Vec<String>,
}

/// The documented contract of the remote store, as a value: upload appends a
/// record and returns its identifier; info and retrieve look one up. The
/// client's callers may assume no more of the remote service than this model
/// states.
#[derive(Debug)]
pub struct BlobStoreModel {
    pub blobs: Vec<BlobRecord>,
}

/// What upload does to the stored sequence, and the identifier it returns.
pub open spec fn upload_spec(blobs: Seq<BlobRecord>, record: BlobRecord) -> (Seq<BlobRecord>, int) {
    (blobs.push(record), blobs.len() as int)
}

/// What a lookup returns for an identifier.
pub open spec fn lookup_spec(blobs: Seq<BlobRecord>, id: int) -> Option<BlobRecord> {
    if 0 <= id < blobs.len() {
        Some(blobs[id])
    } else {
        None
    }
}

impl BlobStoreModel {
    pub fn new() -> (s: BlobStoreModel)
        ensures
            s.blobs@ == Seq::<BlobRecord>::empty(),
    {
        BlobStoreModel { blobs: Vec::new() }
    }

    /// Stores a blob with its metadata and returns its new identifier.
    pub fn upload(
        &mut self,
        file_name: String,
        data: Vec<u8>,
        description: String,
        tags: Vec<String>,
    ) -> (id: usize)
        ensures
            (final(self).blobs@, id as int) == upload_spec(
                old(self).blobs@,
                (BlobRecord { file_name, data, description, tags }),
            ),
    {
        let id = self.blobs.len();
        self.blobs.push(BlobRecord { file_name, data, description, tags });
        id
    }

    /// Looks a blob up by identifier.
    pub fn info(&self, id: usize) -> (r: Option<&BlobRecord>)
        ensures
            match r {
                Some(b) => lookup_spec(self.blobs@, id as int) == Some(*b),
                None => lookup_spec(self.blobs@, id as int) is None,
            },
    {
        if id < self.blobs.len() {
            Some(&self.blobs[id])
        } else {
            None
        }
    }
}

/// A successful upload followed by an info lookup on the returned identifier
/// finds the blob again, with the description, tags, file name and bytes that
/// were uploaded.
pub proof fn lemma_upload_info_round_trip(blobs: Seq<BlobRecord>, record: BlobRecord)
    ensures
        lookup_spec(upload_spec(blobs, record).0, upload_spec(blobs, record).1) == Some(record),
{
}

} // verus!
