//! Construction of the argument vectors handed to the external programs, and
//! interpretation of the extraction step's result.
//!
//! Arguments are built as a literal vector, never concatenated into a shell
//! string, so caller-supplied arguments cannot be interpreted by a shell.

use vstd::prelude::*;
use crate::errors::CompilerApiError;
use crate::errors::ErrorKind;

verus! {

/// One subprocess invocation: a program, its literal argument vector, and the
/// directory it runs in.
#[derive(Debug)]
pub struct Invocation {
    pub program: String,
    pub args: Vec<String>,
    pub workdir: String,
}

/// The invocation of the external runner on a prepared project directory:
/// the fixed run mode, the directory, then the caller's arguments verbatim.
pub fn build_run_invocation(project_dir: &str, user_args: &Vec<String>) -> (inv: Invocation)
    ensures
        inv.program@ == "./runner.sh"@,
        inv.workdir@ == "."@,
        inv.args.deep_view() == seq!["run"@, project_dir@] + user_args.deep_view(),
{
    let mut args: Vec<String> = Vec::new();
    args.push(String::from_str("run"));
    args.push(project_dir.to_owned());
    let mut i: usize = 0;
    proof {
        assert(args.deep_view() =~= seq!["run"@, project_dir@] + user_args.deep_view().take(0));
    }
    while i < user_args.len()
        invariant
            0 <= i <= user_args.len(),
            args.deep_view() == seq!["run"@, project_dir@] + user_args.deep_view().take(i as int),
        decreases user_args.len() - i,
    {
        let ghost old_dv = args.deep_view();
        args.push(user_args[i].clone());
        proof {
            let dv = user_args.deep_view();
            assert(args.deep_view() =~= old_dv.push(dv[i as int]));
            assert(dv.take(i + 1) =~= dv.take(i as int).push(dv[i as int]));
            assert(args.deep_view() =~= seq!["run"@, project_dir@] + dv.take(i + 1));
        }
        i += 1;
    }
    proof {
        assert(user_args.deep_view().take(user_args@.len() as int) =~= user_args.deep_view());
    }
    Invocation {
        program: String::from_str("./runner.sh"),
        args,
        workdir: String::from_str("."),
    }
}

/// The invocation that extracts a gzip-compressed tarball into a directory.
pub fn build_extract_invocation(tar_path: &str, extract_dir: &str) -> (inv: Invocation)
    ensures
        inv.program@ == "tar"@,
        inv.workdir@ == "."@,
        inv.args.deep_view() == seq!["-xzf"@, tar_path@, "-C"@, extract_dir@],
{
    let mut args: Vec<String> = Vec::new();
    args.push(String::from_str("-xzf"));
    args.push(tar_path.to_owned());
    args.push(String::from_str("-C"));
    args.push(extract_dir.to_owned());
    proof {
        assert(args.deep_view() =~= seq!["-xzf"@, tar_path@, "-C"@, extract_dir@]);
    }
    Invocation { program: String::from_str("tar"), args, workdir: String::from_str(".") }
}

/// A failed extraction is an internal fault — the archive container itself,
/// not the submission's contents, was the problem — and never a client error.
pub fn interpret_extraction(success: bool, stderr: &str) -> (r: Result<(), CompilerApiError>)
    ensures
        success <==> r is Ok,
        r matches Err(e) ==> e.kind_spec() == ErrorKind::InternalError && e.message_spec()
            == "Tar decompression failed: "@ + stderr@,
{
    if success {
        Ok(())
    } else {
        let mut message = String::from_str("Tar decompression failed: ");
        message.append(stderr);
        Err(CompilerApiError::InternalError { message })
    }
}

/// Once a submission is materialized — and, for an archive, extracted and
/// normalized — the manifest and a primary source file must both exist on
/// disk, or the request is rejected before any subprocess is spawned.
pub fn check_required_files(manifest_present: bool, primary_source_present: bool) -> (r: Result<
    (),
    CompilerApiError,
>)
    ensures
        r is Ok <==> manifest_present && primary_source_present,
        r matches Err(e) ==> e.kind_spec() == ErrorKind::InvalidInput,
        !manifest_present ==> (r matches Err(e) && e.message_spec()
            == "Missing Cargo.toml file after decompression"@),
        manifest_present && !primary_source_present ==> (r matches Err(e) && e.message_spec()
            == "Missing src/main.rs file after decompression"@),
{
    if !manifest_present {
        Err(
            CompilerApiError::InvalidInput {
                message: String::from_str("Missing Cargo.toml file after decompression"),
            },
        )
    } else if !primary_source_present {
        Err(
            CompilerApiError::InvalidInput {
                message: String::from_str("Missing src/main.rs file after decompression"),
            },
        )
    } else {
        Ok(())
    }
}

} // verus!
