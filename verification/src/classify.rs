//! Classification of the external runner's result into the outcome taxonomy:
//! success, panic, execution error, or internal error.

use vstd::prelude::*;
use crate::errors::CompilerApiError;
use crate::errors::ErrorKind;
use crate::text::has_substring;
use crate::text::trim_spec;
use crate::text::contains_str;
use crate::text::trim;

verus! {

/// The exit status the runtime of the submitted programs uses to signal an
/// uncaught fault.
pub const PANIC_EXIT_CODE: i32 = 101;

/// The body sent back when a submission ran to completion.
#[derive(Debug)]
pub struct ExecutionResponse {
    pub status: String,
    pub output: String,
    pub quote: String,
}

impl ExecutionResponse {
    /// The success body: a fixed status tag and the program's trimmed output.
    pub fn success(output: String) -> (r: ExecutionResponse)
        ensures
            r.status@ == "success"@,
            r.output@ == output@,
            r.quote@ == Seq::<char>::empty(),
    {
        ExecutionResponse { status: String::from_str("success"), output, quote: String::new() }
    }
}

/// What became of one attempt to run a submission.
#[derive(Debug)]
pub enum RunnerResult {
    /// The runner terminated; its exit code (`None` when killed by a signal)
    /// and captured streams.
    Completed { exit_code: Option<i32>, stdout: String, stderr: String },
    /// The runner could not be launched at all.
    LaunchFailed { message: String },
}

/// Mathematical image of a `RunnerResult`.
pub enum RunnerResultView {
    Completed { exit_code: Option<i32>, stdout: Seq<char>, stderr: Seq<char> },
    LaunchFailed { message: Seq<char> },
}

impl View for RunnerResult {
    type V = RunnerResultView;

    open spec fn view(&self) -> RunnerResultView {
        match self {
            RunnerResult::Completed { exit_code, stdout, stderr } => (RunnerResultView::Completed {
                exit_code: *exit_code,
                stdout: stdout@,
                stderr: stderr@,
            }),
            RunnerResult::LaunchFailed { message } => (RunnerResultView::LaunchFailed {
                message: message@,
            }),
        }
    }
}

/// The four terminal outcomes of a terminated run.
pub enum OutcomeView {
    Success { output: Seq<char> },
    Panic { message: Seq<char> },
    ExecError { message: Seq<char> },
    Internal { message: Seq<char> },
}

/// Classification of a terminated subprocess. The panic check comes before
/// the generic non-success check: the marker in the diagnostics wins over the
/// exit code alone.
pub open spec fn classify_completed(
    exit_code: Option<i32>,
    stdout: Seq<char>,
    stderr: Seq<char>,
) -> OutcomeView {
    if exit_code == Some(0i32) {
        OutcomeView::Success { output: trim_spec(stdout) }
    } else if exit_code == Some(PANIC_EXIT_CODE) || has_substring(stderr, "panicked at"@) {
        OutcomeView::Panic { message: "Panic: "@ + stderr }
    } else {
        OutcomeView::ExecError { message: "Execution error: "@ + stderr }
    }
}

/// Classification of a whole attempt, a launch failure included.
pub open spec fn classify_result_spec(r: RunnerResultView) -> OutcomeView {
    match r {
        RunnerResultView::Completed { exit_code, stdout, stderr } => classify_completed(
            exit_code,
            stdout,
            stderr,
        ),
        RunnerResultView::LaunchFailed { message } => (OutcomeView::Internal {
            message: "Failed to execute project: "@ + message,
        }),
    }
}

/// Classifies the runner's result: trimmed output on success, and the
/// kind-appropriate error otherwise.
pub fn classify(r: &RunnerResult) -> (out: Result<ExecutionResponse, CompilerApiError>)
    ensures
        match classify_result_spec(r@) {
            OutcomeView::Success { output } => out matches Ok(resp) && resp.status@ == "success"@
                && resp.output@ == output && resp.quote@ == Seq::<char>::empty(),
            OutcomeView::Panic { message } => out matches Err(e) && e.kind_spec()
                == ErrorKind::PanicError && e.message_spec() == message,
            OutcomeView::ExecError { message } => out matches Err(e) && e.kind_spec()
                == ErrorKind::ExecutionError && e.message_spec() == message,
            OutcomeView::Internal { message } => out matches Err(e) && e.kind_spec()
                == ErrorKind::InternalError && e.message_spec() == message,
        },
{
    match r {
        RunnerResult::Completed { exit_code, stdout, stderr } => {
            let success = match exit_code {
                Some(c) => *c == 0,
                None => false,
            };
            if success {
                Ok(ExecutionResponse::success(trim(stdout.as_str())))
            } else {
                let panic_code = match exit_code {
                    Some(c) => *c == PANIC_EXIT_CODE,
                    None => false,
                };
                if panic_code || contains_str(stderr.as_str(), "panicked at") {
                    let mut message = String::from_str("Panic: ");
                    message.append(stderr.as_str());
                    Err(CompilerApiError::PanicError { message })
                } else {
                    let mut message = String::from_str("Execution error: ");
                    message.append(stderr.as_str());
                    Err(CompilerApiError::ExecutionError { message })
                }
            }
        },
        RunnerResult::LaunchFailed { message } => {
            let mut full = String::from_str("Failed to execute project: ");
            full.append(message.as_str());
            Err(CompilerApiError::InternalError { message: full })
        },
    }
}

/// Which outcome a completed run is classified as depends only on the exit
/// code and the diagnostic stream: runs with equal (exit code, stderr) pairs
/// are classified alike, whatever their standard output was.
pub proof fn lemma_classification_deterministic(
    exit_code: Option<i32>,
    stdout1: Seq<char>,
    stdout2: Seq<char>,
    stderr: Seq<char>,
)
    ensures
        match (classify_completed(exit_code, stdout1, stderr), classify_completed(
            exit_code,
            stdout2,
            stderr,
        )) {
            (OutcomeView::Success { .. }, OutcomeView::Success { .. }) => true,
            (OutcomeView::Panic { message: m1 }, OutcomeView::Panic { message: m2 }) => m1 == m2,
            (OutcomeView::ExecError { message: m1 }, OutcomeView::ExecError { message: m2 }) => m1
                == m2,
            _ => false,
        },
{
}

} // verus!
