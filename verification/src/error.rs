//! Error values, process output, and operation results.
use crate::text::{copy_str, copy_string};
use vstd::prelude::*;

verus! {

/// Structured detail attached to an error.
#[derive(Debug, Clone)]
pub enum ErrorDetails {
    /// The captured output of the process whose failure produced the error.
    Process(ProcessOutput),
    /// Warnings collected before the error.
    Warnings(Vec<String>),
    /// The code of an underlying error.
    Cause(String),
    /// The codes and messages of the two USB tunnel programs that failed:
    /// the bundled go-ios build first, then iproxy.
    UsbProviders { go_ios_code: String, go_ios_message: String, iproxy_code: String, iproxy_message: String },
}

/// An error returned to the user interface: a stable machine-readable code,
/// a human-readable message, and optional detail.
#[derive(Debug, Clone)]
pub struct ApiError {
    pub code: String,
    pub message: String,
    pub details: Option<ErrorDetails>,
}

/// `e` carries exactly the given code and message and no detail.
pub open spec fn is_error(e: ApiError, code: Seq<char>, message: Seq<char>) -> bool {
    e.code@ == code && e.message@ == message && e.details is None
}

impl ApiError {
    pub fn new(code: &str, message: &str) -> (e: ApiError)
        ensures
            is_error(e, code@, message@),
    {
        ApiError { code: copy_str(code), message: copy_str(message), details: None }
    }

    /// An error whose message was assembled at run time.
    pub fn with_message(code: &str, message: String) -> (e: ApiError)
        ensures
            is_error(e, code@, message@),
    {
        ApiError { code: copy_str(code), message, details: None }
    }

    pub fn with_details(self, details: ErrorDetails) -> (e: ApiError)
        ensures
            e.code == self.code,
            e.message == self.message,
            e.details == Some(details),
    {
        ApiError { code: self.code, message: self.message, details: Some(details) }
    }
}

/// The outcome of an operation reported to the user interface.
#[derive(Debug, Clone)]
pub struct OperationResult {
    pub success: bool,
    pub message: String,
    pub stdout: Option<String>,
    pub stderr: Option<String>,
    pub pid: Option<u32>,
    pub exit_code: Option<i32>,
    pub timed_out: bool,
}

/// The captured result of running a host tool.
#[derive(Debug, Clone)]
pub struct ProcessOutput {
    pub program: String,
    pub exit_code: Option<i32>,
    pub stdout: String,
    pub stderr: String,
    pub timed_out: bool,
    pub truncated: bool,
    pub duration_ms: u64,
}

/// `Some(text)` unless the text is empty.
pub open spec fn nonempty_text(s: String) -> Option<String> {
    if s@.len() == 0 {
        None
    } else {
        Some(s)
    }
}

/// Two captured outputs hold the same text and status.
pub open spec fn same_output(a: ProcessOutput, b: ProcessOutput) -> bool {
    &&& a.program@ == b.program@
    &&& a.exit_code == b.exit_code
    &&& a.stdout@ == b.stdout@
    &&& a.stderr@ == b.stderr@
    &&& a.timed_out == b.timed_out
    &&& a.truncated == b.truncated
    &&& a.duration_ms == b.duration_ms
}

/// `e` carries the given code and message, with the process output as detail.
pub open spec fn is_process_error(
    e: ApiError,
    code: Seq<char>,
    message: Seq<char>,
    output: ProcessOutput,
) -> bool {
    &&& e.code@ == code
    &&& e.message@ == message
    &&& e.details matches Some(ErrorDetails::Process(o)) && same_output(o, output)
}

/// `e` carries the given code and message, with warnings as detail.
pub open spec fn is_warnings_error(
    e: ApiError,
    code: Seq<char>,
    message: Seq<char>,
    warnings: Seq<Seq<char>>,
) -> bool {
    &&& e.code@ == code
    &&& e.message@ == message
    &&& e.details matches Some(ErrorDetails::Warnings(w)) && w@.map_values(|x: String| x@)
        == warnings
}

impl ProcessOutput {
    /// A copy of this output.
    pub fn copied(&self) -> (r: ProcessOutput)
        ensures
            same_output(r, *self),
    {
        ProcessOutput {
            program: copy_string(&self.program),
            exit_code: self.exit_code,
            stdout: copy_string(&self.stdout),
            stderr: copy_string(&self.stderr),
            timed_out: self.timed_out,
            truncated: self.truncated,
            duration_ms: self.duration_ms,
        }
    }

    /// A successful operation result that carries this output.
    pub fn into_operation(self, message: String) -> (r: OperationResult)
        ensures
            r.success,
            r.message == message,
            r.stdout == nonempty_text(self.stdout),
            r.stderr == nonempty_text(self.stderr),
            r.pid is None,
            r.exit_code == self.exit_code,
            r.timed_out == self.timed_out,
    {
        let stdout = if self.stdout.as_str().is_empty() {
            None
        } else {
            Some(self.stdout)
        };
        let stderr = if self.stderr.as_str().is_empty() {
            None
        } else {
            Some(self.stderr)
        };
        OperationResult {
            success: true,
            message,
            stdout,
            stderr,
            pid: None,
            exit_code: self.exit_code,
            timed_out: self.timed_out,
        }
    }
}

/// What a command returns to the user interface: either the data or the error,
/// with the time the command took.
#[derive(Debug)]
pub struct ApiResult<T> {
    pub ok: bool,
    pub data: Option<T>,
    pub error: Option<ApiError>,
    pub elapsed_ms: u64,
}

impl<T> ApiResult<T> {
    pub fn from_result(result: Result<T, ApiError>, elapsed_ms: u64) -> (r: ApiResult<T>)
        ensures
            r.ok == result is Ok,
            r.elapsed_ms == elapsed_ms,
            match result {
                Ok(data) => r.data == Some(data) && r.error is None,
                Err(error) => r.data is None && r.error == Some(error),
            },
    {
        match result {
            Ok(data) => ApiResult { ok: true, data: Some(data), error: None, elapsed_ms },
            Err(error) => ApiResult { ok: false, data: None, error: Some(error), elapsed_ms },
        }
    }
}

} // verus!
