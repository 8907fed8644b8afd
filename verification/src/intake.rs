//! Submission intake: dispatching the named parts of an incoming request to
//! their canonical on-disk locations and validating that the minimum required
//! artifacts arrived.
//!
//! The intake consumes every part exactly once, in arrival order. Each part's
//! role follows from its declared name, with an extension-based fallback for
//! additional source files. Unknown names are either routed into the source
//! subdirectory under a sanitized base name or rejected outright — a
//! deployment choice the caller picks with `UnknownPartPolicy`.

use vstd::prelude::*;
use std::collections::HashMap;
use crate::errors::CompilerApiError;
use crate::errors::ErrorKind;
use crate::text::base_name;
use crate::text::base_name_spec;
use crate::text::base_start;
use crate::text::clone_bytes;
use crate::text::has_rs_extension;
use crate::text::is_rs_file_name;
use crate::text::is_safe_base;
use crate::text::is_sep_char;
use crate::text::lemma_base_start_props;
use crate::text::safe_base;
use crate::text::str_eq;

verus! {

/// A deserialized run request: parameter lists by name.
#[derive(Debug, Clone)]
pub struct RunRequest {
    pub params: HashMap<String, Vec<String>>,
}

/// One named byte payload of the incoming request.
#[derive(Debug)]
pub struct SubmissionPart {
    pub name: String,
    pub data: Vec<u8>,
}

/// Mathematical image of a part.
pub struct PartView {
    pub name: Seq<char>,
    pub data: Seq<u8>,
}

impl View for SubmissionPart {
    type V = PartView;

    open spec fn view(&self) -> PartView {
        PartView { name: self.name@, data: self.data@ }
    }
}

impl DeepView for SubmissionPart {
    type V = PartView;

    open spec fn deep_view(&self) -> PartView {
        self.view()
    }
}

/// One planned write: a path relative to the project directory, and the bytes
/// that go there.
#[derive(Debug)]
pub struct FileWrite {
    pub path: String,
    pub data: Vec<u8>,
}

/// Mathematical image of a write.
pub struct WriteView {
    pub path: Seq<char>,
    pub data: Seq<u8>,
}

impl View for FileWrite {
    type V = WriteView;

    open spec fn view(&self) -> WriteView {
        WriteView { path: self.path@, data: self.data@ }
    }
}

impl DeepView for FileWrite {
    type V = WriteView;

    open spec fn deep_view(&self) -> WriteView {
        self.view()
    }
}

/// The logical role of a part, determined by its declared name.
#[derive(Clone, Copy, Debug, PartialEq, Eq, Structural)]
pub enum PartRole {
    Manifest,
    PrimarySource,
    EnvFile,
    AuxSource,
    Archive,
    Args,
    Unknown,
}

/// What intake does with a part whose name it does not recognize.
#[derive(Clone, Copy, Debug, PartialEq, Eq, Structural)]
pub enum UnknownPartPolicy {
    /// Route it into the source subdirectory under its sanitized base name.
    RouteToSource,
    /// Reject the whole submission.
    Reject,
}

pub open spec fn role_of_name(name: Seq<char>) -> PartRole {
    if name == "Cargo.toml"@ {
        PartRole::Manifest
    } else if name == "main.rs"@ {
        PartRole::PrimarySource
    } else if name == ".env"@ {
        PartRole::EnvFile
    } else if name == "tar_file"@ {
        PartRole::Archive
    } else if name == "args"@ {
        PartRole::Args
    } else if has_rs_extension(name) {
        PartRole::AuxSource
    } else {
        PartRole::Unknown
    }
}

pub fn classify_part_name(name: &str) -> (r: PartRole)
    ensures
        r == role_of_name(name@),
{
    if str_eq(name, "Cargo.toml") {
        PartRole::Manifest
    } else if str_eq(name, "main.rs") {
        PartRole::PrimarySource
    } else if str_eq(name, ".env") {
        PartRole::EnvFile
    } else if str_eq(name, "tar_file") {
        PartRole::Archive
    } else if str_eq(name, "args") {
        PartRole::Args
    } else if is_rs_file_name(name) {
        PartRole::AuxSource
    } else {
        PartRole::Unknown
    }
}

/// The write path of an additional source file: its sanitized base name under
/// the source subdirectory.
pub open spec fn aux_write_path(name: Seq<char>) -> Seq<char> {
    "src/"@ + base_name_spec(name)
}

/// The state of the scan over the parts, in arrival order.
pub struct ScanState {
    pub writes: Seq<WriteView>,
    pub args_data: Option<Seq<u8>>,
    pub has_manifest: bool,
    pub has_primary: bool,
    pub has_archive: bool,
    /// The message of the first rejection; once set, the scan is over.
    pub reject: Option<Seq<char>>,
}

pub open spec fn scan_init() -> ScanState {
    ScanState {
        writes: seq![],
        args_data: None,
        has_manifest: false,
        has_primary: false,
        has_archive: false,
        reject: None,
    }
}

pub open spec fn scan_step(st: ScanState, p: PartView, policy: UnknownPartPolicy) -> ScanState {
    if st.reject is Some {
        st
    } else {
        match role_of_name(p.name) {
            PartRole::Manifest => (ScanState {
                writes: st.writes.push(WriteView { path: "Cargo.toml"@, data: p.data }),
                has_manifest: true,
                ..st
            }),
            PartRole::PrimarySource => (ScanState {
                writes: st.writes.push(WriteView { path: "src/main.rs"@, data: p.data }),
                has_primary: true,
                ..st
            }),
            PartRole::EnvFile => (ScanState {
                writes: st.writes.push(WriteView { path: ".env"@, data: p.data }),
                ..st
            }),
            PartRole::AuxSource => (ScanState {
                writes: st.writes.push(WriteView { path: aux_write_path(p.name), data: p.data }),
                ..st
            }),
            PartRole::Archive => (ScanState {
                writes: st.writes.push(WriteView { path: "project.tar.gz"@, data: p.data }),
                has_archive: true,
                ..st
            }),
            PartRole::Args => (ScanState { args_data: Some(p.data), ..st }),
            PartRole::Unknown => {
                match policy {
                    UnknownPartPolicy::Reject => (ScanState {
                        reject: Some("Unknown field: "@ + p.name),
                        ..st
                    }),
                    UnknownPartPolicy::RouteToSource => {
                        if safe_base(base_name_spec(p.name)) {
                            ScanState {
                                writes: st.writes.push(
                                    WriteView { path: aux_write_path(p.name), data: p.data },
                                ),
                                ..st
                            }
                        } else {
                            ScanState { reject: Some("Invalid file name: "@ + p.name), ..st }
                        }
                    },
                }
            },
        }
    }
}

pub open spec fn scan_parts(parts: Seq<PartView>, policy: UnknownPartPolicy) -> ScanState
    decreases parts.len(),
{
    if parts.len() == 0 {
        scan_init()
    } else {
        scan_step(scan_parts(parts.drop_last(), policy), parts.last(), policy)
    }
}

/// Mathematical image of an accepted intake.
pub struct PlanView {
    pub writes: Seq<WriteView>,
    pub args_data: Option<Seq<u8>>,
    pub has_archive: bool,
}

/// What intake decides for a given part sequence: the plan, or the message of
/// the `InvalidInput` rejection.
pub open spec fn intake_spec(parts: Seq<PartView>, policy: UnknownPartPolicy) -> Result<
    PlanView,
    Seq<char>,
> {
    let st = scan_parts(parts, policy);
    match st.reject {
        Some(m) => Err(m),
        None => {
            if !st.has_manifest {
                Err("Missing manifest file"@)
            } else if !st.has_primary && !st.has_archive {
                Err("Missing source file"@)
            } else {
                Ok(
                    PlanView {
                        writes: st.writes,
                        args_data: st.args_data,
                        has_archive: st.has_archive,
                    },
                )
            }
        },
    }
}

/// An accepted submission: the writes to perform, whether an archive awaits
/// extraction, and the raw bytes of the argument part, if one arrived.
#[derive(Debug)]
pub struct IntakePlan {
    pub writes: Vec<FileWrite>,
    pub args_data: Option<Vec<u8>>,
    pub has_archive: bool,
}

impl View for IntakePlan {
    type V = PlanView;

    open spec fn view(&self) -> PlanView {
        PlanView {
            writes: self.writes.deep_view(),
            args_data: match self.args_data {
                Some(v) => Some(v@),
                None => None,
            },
            has_archive: self.has_archive,
        }
    }
}

/// Consumes the parts of a submission, in arrival order, and either plans its
/// materialization or rejects it as invalid input. A submission without a
/// manifest part, or with neither a primary source file nor an archive, is
/// rejected; so is one with an unknown part name under the rejecting policy,
/// or with a part name whose sanitized base is unusable.
pub fn intake(parts: &Vec<SubmissionPart>, policy: UnknownPartPolicy) -> (r: Result<
    IntakePlan,
    CompilerApiError,
>)
    ensures
        ({
            let s = intake_spec(parts.deep_view(), policy);
            &&& (r is Ok <==> s is Ok)
            &&& (r matches Ok(plan) ==> (s matches Ok(pv) && plan@ == pv))
            &&& (r matches Err(e) ==> (s matches Err(m) && e.kind_spec() == ErrorKind::InvalidInput
                && e.message_spec() == m))
        }),
{
    let ghost pseq = parts.deep_view();
    let mut writes: Vec<FileWrite> = Vec::new();
    let mut args_data: Option<Vec<u8>> = None;
    let mut has_manifest = false;
    let mut has_primary = false;
    let mut has_archive = false;
    proof {
        assert(pseq.take(0) =~= Seq::<PartView>::empty());
        assert(writes.deep_view() =~= Seq::<WriteView>::empty());
    }
    let mut idx: usize = 0;
    while idx < parts.len()
        invariant
            0 <= idx <= parts@.len(),
            pseq == parts.deep_view(),
            ({
                let st = scan_parts(pseq.take(idx as int), policy);
                &&& st.reject is None
                &&& st.writes == writes.deep_view()
                &&& st.args_data == (match args_data {
                    Some(v) => Some(v@),
                    None => None::<Seq<u8>>,
                })
                &&& st.has_manifest == has_manifest
                &&& st.has_primary == has_primary
                &&& st.has_archive == has_archive
            }),
        decreases parts@.len() - idx,
    {
        proof {
            assert(pseq.take(idx + 1).drop_last() =~= pseq.take(idx as int));
            assert(pseq.take(idx + 1).last() == pseq[idx as int]);
        }
        let ghost st = scan_parts(pseq.take(idx as int), policy);
        let part = &parts[idx];
        proof {
            assert(part@ == pseq[idx as int]);
        }
        let role = classify_part_name(part.name.as_str());
        match role {
            PartRole::Manifest => {
                let ghost old_wdv = writes.deep_view();
                writes.push(
                    FileWrite { path: String::from_str("Cargo.toml"), data: clone_bytes(&part.data) },
                );
                has_manifest = true;
                proof {
                    assert(writes.deep_view() =~= old_wdv.push(
                        WriteView { path: "Cargo.toml"@, data: part.data@ },
                    ));
                }
            },
            PartRole::PrimarySource => {
                let ghost old_wdv = writes.deep_view();
                writes.push(
                    FileWrite {
                        path: String::from_str("src/main.rs"),
                        data: clone_bytes(&part.data),
                    },
                );
                has_primary = true;
                proof {
                    assert(writes.deep_view() =~= old_wdv.push(
                        WriteView { path: "src/main.rs"@, data: part.data@ },
                    ));
                }
            },
            PartRole::EnvFile => {
                let ghost old_wdv = writes.deep_view();
                writes.push(
                    FileWrite { path: String::from_str(".env"), data: clone_bytes(&part.data) },
                );
                proof {
                    assert(writes.deep_view() =~= old_wdv.push(
                        WriteView { path: ".env"@, data: part.data@ },
                    ));
                }
            },
            PartRole::AuxSource => {
                let base = base_name(part.name.as_str());
                let mut path = String::from_str("src/");
                path.append(base.as_str());
                let ghost old_wdv = writes.deep_view();
                writes.push(FileWrite { path, data: clone_bytes(&part.data) });
                proof {
                    assert(writes.deep_view() =~= old_wdv.push(
                        WriteView { path: aux_write_path(pseq[idx as int].name), data: part.data@ },
                    ));
                }
            },
            PartRole::Archive => {
                let ghost old_wdv = writes.deep_view();
                writes.push(
                    FileWrite {
                        path: String::from_str("project.tar.gz"),
                        data: clone_bytes(&part.data),
                    },
                );
                has_archive = true;
                proof {
                    assert(writes.deep_view() =~= old_wdv.push(
                        WriteView { path: "project.tar.gz"@, data: part.data@ },
                    ));
                }
            },
            PartRole::Args => {
                args_data = Some(clone_bytes(&part.data));
            },
            PartRole::Unknown => {
                match policy {
                    UnknownPartPolicy::Reject => {
                        let mut message = String::from_str("Unknown field: ");
                        message.append(part.name.as_str());
                        proof {
                            assert(scan_parts(pseq.take(idx + 1), policy).reject == Some(
                                "Unknown field: "@ + pseq[idx as int].name,
                            ));
                            lemma_scan_reject_extends(pseq, policy, idx + 1);
                        }
                        return Err(CompilerApiError::InvalidInput { message });
                    },
                    UnknownPartPolicy::RouteToSource => {
                        let base = base_name(part.name.as_str());
                        if is_safe_base(base.as_str()) {
                            let mut path = String::from_str("src/");
                            path.append(base.as_str());
                            let ghost old_wdv = writes.deep_view();
                            writes.push(FileWrite { path, data: clone_bytes(&part.data) });
                            proof {
                                assert(writes.deep_view() =~= old_wdv.push(
                                    WriteView {
                                        path: aux_write_path(pseq[idx as int].name),
                                        data: part.data@,
                                    },
                                ));
                            }
                        } else {
                            let mut message = String::from_str("Invalid file name: ");
                            message.append(part.name.as_str());
                            proof {
                                assert(scan_parts(pseq.take(idx + 1), policy).reject == Some(
                                    "Invalid file name: "@ + pseq[idx as int].name,
                                ));
                                lemma_scan_reject_extends(pseq, policy, idx + 1);
                            }
                            return Err(CompilerApiError::InvalidInput { message });
                        }
                    },
                }
            },
        }
        idx += 1;
    }
    proof {
        assert(pseq.take(parts@.len() as int) =~= pseq);
    }
    if !has_manifest {
        return Err(
            CompilerApiError::InvalidInput { message: String::from_str("Missing manifest file") },
        );
    }
    if !has_primary && !has_archive {
        return Err(
            CompilerApiError::InvalidInput { message: String::from_str("Missing source file") },
        );
    }
    Ok(IntakePlan { writes, args_data, has_archive })
}

/// Once the scan has rejected a part, the remaining parts change nothing.
pub proof fn lemma_scan_reject_extends(parts: Seq<PartView>, policy: UnknownPartPolicy, i: int)
    requires
        0 <= i <= parts.len(),
        scan_parts(parts.take(i), policy).reject is Some,
    ensures
        scan_parts(parts, policy) == scan_parts(parts.take(i), policy),
    decreases parts.len() - i,
{
    if i == parts.len() {
        assert(parts.take(i) =~= parts);
    } else {
        assert(parts.take(i + 1).drop_last() =~= parts.take(i));
        assert(parts.take(i + 1).last() == parts[i]);
        lemma_scan_reject_extends(parts, policy, i + 1);
    }
}

/// Some part of the sequence has the given role.
pub open spec fn has_part_with_role(parts: Seq<PartView>, role: PartRole) -> bool {
    exists|i: int| 0 <= i < parts.len() && role_of_name(#[trigger] parts[i].name) == role
}

/// The scan's presence flags only ever come from a part with that role.
proof fn lemma_scan_flags(parts: Seq<PartView>, policy: UnknownPartPolicy)
    ensures
        scan_parts(parts, policy).has_manifest ==> has_part_with_role(parts, PartRole::Manifest),
        scan_parts(parts, policy).has_primary ==> has_part_with_role(
            parts,
            PartRole::PrimarySource,
        ),
        scan_parts(parts, policy).has_archive ==> has_part_with_role(parts, PartRole::Archive),
    decreases parts.len(),
{
    if parts.len() > 0 {
        let t = parts.drop_last();
        lemma_scan_flags(t, policy);
        assert(forall|i: int| 0 <= i < t.len() ==> #[trigger] parts[i].name == t[i].name);
        if scan_parts(parts, policy).has_manifest && !scan_parts(t, policy).has_manifest {
            assert(role_of_name(parts[parts.len() - 1].name) == PartRole::Manifest);
        }
        if scan_parts(parts, policy).has_primary && !scan_parts(t, policy).has_primary {
            assert(role_of_name(parts[parts.len() - 1].name) == PartRole::PrimarySource);
        }
        if scan_parts(parts, policy).has_archive && !scan_parts(t, policy).has_archive {
            assert(role_of_name(parts[parts.len() - 1].name) == PartRole::Archive);
        }
    }
}

/// A submission without a manifest part is rejected as invalid input — and so
/// never reaches the runner.
pub proof fn lemma_missing_manifest_rejected(parts: Seq<PartView>, policy: UnknownPartPolicy)
    requires
        !has_part_with_role(parts, PartRole::Manifest),
    ensures
        intake_spec(parts, policy) is Err,
{
    lemma_scan_flags(parts, policy);
}

/// A submission with neither a primary source file nor an archive is rejected
/// as invalid input — and so never reaches the runner.
pub proof fn lemma_missing_source_rejected(parts: Seq<PartView>, policy: UnknownPartPolicy)
    requires
        !has_part_with_role(parts, PartRole::PrimarySource),
        !has_part_with_role(parts, PartRole::Archive),
    ensures
        intake_spec(parts, policy) is Err,
{
    lemma_scan_flags(parts, policy);
}

/// The scan's presence flags are backed by planned writes: a manifest flag
/// means a write to the manifest path is in the plan, and likewise for the
/// primary source file and the archive.
proof fn lemma_scan_flags_write(parts: Seq<PartView>, policy: UnknownPartPolicy)
    ensures
        ({
            let st = scan_parts(parts, policy);
            &&& st.has_manifest ==> exists|i: int|
                #![auto]
                0 <= i < st.writes.len() && st.writes[i].path == "Cargo.toml"@
            &&& st.has_primary ==> exists|i: int|
                #![auto]
                0 <= i < st.writes.len() && st.writes[i].path == "src/main.rs"@
            &&& st.has_archive ==> exists|i: int|
                #![auto]
                0 <= i < st.writes.len() && st.writes[i].path == "project.tar.gz"@
        }),
    decreases parts.len(),
{
    if parts.len() > 0 {
        let t = parts.drop_last();
        lemma_scan_flags_write(t, policy);
        let st = scan_parts(t, policy);
        let stp = scan_parts(parts, policy);
        assert(forall|i: int|
            0 <= i < st.writes.len() ==> #[trigger] stp.writes[i] == st.writes[i]);
        if stp.has_manifest {
            if st.has_manifest {
                let w = choose|w: int|
                    0 <= w < st.writes.len() && (#[trigger] st.writes[w]).path == "Cargo.toml"@;
                assert(stp.writes[w].path == "Cargo.toml"@);
            } else {
                assert(stp.writes.last().path == "Cargo.toml"@);
            }
        }
        if stp.has_primary {
            if st.has_primary {
                let w = choose|w: int|
                    0 <= w < st.writes.len() && (#[trigger] st.writes[w]).path == "src/main.rs"@;
                assert(stp.writes[w].path == "src/main.rs"@);
            } else {
                assert(stp.writes.last().path == "src/main.rs"@);
            }
        }
        if stp.has_archive {
            if st.has_archive {
                let w = choose|w: int|
                    0 <= w < st.writes.len() && (#[trigger] st.writes[w]).path
                        == "project.tar.gz"@;
                assert(stp.writes[w].path == "project.tar.gz"@);
            } else {
                assert(stp.writes.last().path == "project.tar.gz"@);
            }
        }
    }
}

/// An accepted submission materializes what the runner requires: the plan
/// always writes the manifest, and when no archive is pending extraction it
/// also writes the primary source file under the source subdirectory.
pub proof fn lemma_accepted_intake_materializes_required_files(
    parts: Seq<PartView>,
    policy: UnknownPartPolicy,
)
    requires
        intake_spec(parts, policy) is Ok,
    ensures
        ({
            let pv = intake_spec(parts, policy)->Ok_0;
            &&& exists|i: int|
                #![auto]
                0 <= i < pv.writes.len() && pv.writes[i].path == "Cargo.toml"@
            &&& !pv.has_archive ==> exists|i: int|
                #![auto]
                0 <= i < pv.writes.len() && pv.writes[i].path == "src/main.rs"@
        }),
{
    lemma_scan_flags_write(parts, policy);
    let st = scan_parts(parts, policy);
    let pv = intake_spec(parts, policy)->Ok_0;
    assert(pv.writes == st.writes);
    assert(st.has_manifest);
    let w = choose|w: int|
        0 <= w < st.writes.len() && (#[trigger] st.writes[w]).path == "Cargo.toml"@;
    assert(pv.writes[w].path == "Cargo.toml"@);
    if !pv.has_archive {
        assert(st.has_primary);
        let w2 = choose|w2: int|
            0 <= w2 < st.writes.len() && (#[trigger] st.writes[w2]).path == "src/main.rs"@;
        assert(pv.writes[w2].path == "src/main.rs"@);
    }
}

/// A base name that may safely be joined under the source subdirectory:
/// nonempty, free of separators, and not a relative-directory reference.
pub open spec fn safe_aux_base(b: Seq<char>) -> bool {
    safe_base(b) && (forall|i: int| 0 <= i < b.len() ==> !is_sep_char(#[trigger] b[i]))
}

/// Every path intake plans a write to is confined to the project directory:
/// one of the fixed canonical locations, or a safe base name under the source
/// subdirectory. In particular no attacker-supplied directory component — an
/// absolute path, a separator, or a relative-directory reference — survives
/// into a write path.
pub open spec fn confined_write_path(p: Seq<char>) -> bool {
    ||| p == "Cargo.toml"@
    ||| p == "src/main.rs"@
    ||| p == ".env"@
    ||| p == "project.tar.gz"@
    ||| exists|b: Seq<char>| #![auto] p == "src/"@ + b && safe_aux_base(b)
}

pub proof fn lemma_intake_writes_confined(parts: Seq<PartView>, policy: UnknownPartPolicy)
    ensures
        forall|k: int|
            0 <= k < scan_parts(parts, policy).writes.len() ==> confined_write_path(
                #[trigger] scan_parts(parts, policy).writes[k].path,
            ),
    decreases parts.len(),
{
    if parts.len() > 0 {
        let t = parts.drop_last();
        lemma_intake_writes_confined(t, policy);
        let st = scan_parts(t, policy);
        let stp = scan_parts(parts, policy);
        let name = parts.last().name;
        if st.reject is None {
            if role_of_name(name) == PartRole::AuxSource {
                lemma_aux_base_safe(name);
                assert(confined_write_path(aux_write_path(name)));
            }
            if role_of_name(name) == PartRole::Unknown && policy == UnknownPartPolicy::RouteToSource
                && safe_base(base_name_spec(name)) {
                lemma_base_start_props(name);
                let b = base_name_spec(name);
                assert(safe_aux_base(b));
                assert(confined_write_path(aux_write_path(name)));
            }
        }
        assert forall|k: int| 0 <= k < stp.writes.len() implies confined_write_path(
            #[trigger] stp.writes[k].path,
        ) by {
            if k < st.writes.len() {
                assert(confined_write_path(st.writes[k].path));
                assert(stp.writes[k] == st.writes[k]);
            }
        }
    }
}

/// The base of a name with the source-file extension is itself safe: it is
/// nonempty, ends in the extension's last letter, and holds no separator.
proof fn lemma_aux_base_safe(name: Seq<char>)
    requires
        has_rs_extension(name),
    ensures
        safe_aux_base(base_name_spec(name)),
{
    lemma_base_start_props(name);
    let b = base_name_spec(name);
    assert(!is_sep_char(name.last()));
    assert(base_start(name) == base_start(name.drop_last()));
    lemma_base_start_props(name.drop_last());
    assert(b.len() >= 1);
    assert(b.last() == name.last());
    assert(b.last() == 's');
    if b == seq!['.'] {
        assert(b.last() == '.');
    }
    if b == seq!['.', '.'] {
        assert(b.last() == '.');
    }
    assert forall|i: int| 0 <= i < b.len() implies !is_sep_char(#[trigger] b[i]) by {
        assert(b[i] == name[base_start(name) + i]);
    }
}

} // verus!
