//! Read-only diagnostics run with the libimobiledevice host tools: the
//! fixed invocations, the time window, and how their output is reported.
use crate::error::{is_error, ApiError, ProcessOutput};
use crate::ios_diagnostics::{filter_chars, keep_printable};
use crate::models::{IosHostDiagnosticKind, IosHostDiagnosticRequest, IosHostDiagnosticResult};
use crate::text;
use vstd::prelude::*;

verus! {

pub const DEFAULT_DIAGNOSTIC_TIMEOUT_MS: u64 = 10_000;
pub const DEFAULT_SYSLOG_TIMEOUT_MS: u64 = 5_000;
pub const MIN_TIMEOUT_MS: u64 = 250;
pub const MAX_TIMEOUT_MS: u64 = 30_000;
pub const MAX_OUTPUT_BYTES: usize = 262_144;
pub const MAX_STDERR_BYTES: usize = 16_384;
pub const MAX_ERROR_BYTES: usize = 8_192;

/// The time window of a diagnostic in milliseconds: the requested one, or
/// 5 s for a log sample and 10 s otherwise; it must lie in 250..=30000.
pub open spec fn timeout_check(kind: IosHostDiagnosticKind, requested: Option<u64>) -> Option<u64> {
    let ms = match requested {
        Some(v) => v,
        None => if kind == IosHostDiagnosticKind::Syslog {
            DEFAULT_SYSLOG_TIMEOUT_MS
        } else {
            DEFAULT_DIAGNOSTIC_TIMEOUT_MS
        },
    };
    if MIN_TIMEOUT_MS <= ms <= MAX_TIMEOUT_MS {
        Some(ms)
    } else {
        None
    }
}

pub fn diagnostic_timeout(kind: IosHostDiagnosticKind, requested: Option<u64>) -> (r: Result<u64, ApiError>)
    ensures
        match timeout_check(kind, requested) {
            Some(ms) => r == Ok::<u64, ApiError>(ms),
            None => (r matches Err(e) && is_error(
                e,
                "invalid_ios_diagnostic_timeout"@,
                "iOS diagnostic timeout must be between 250 and 30000 ms"@,
            )),
        },
{
    let ms = match requested {
        Some(v) => v,
        None => match kind {
            IosHostDiagnosticKind::Syslog => DEFAULT_SYSLOG_TIMEOUT_MS,
            _ => DEFAULT_DIAGNOSTIC_TIMEOUT_MS,
        },
    };
    if ms < MIN_TIMEOUT_MS || ms > MAX_TIMEOUT_MS {
        return Err(
            ApiError::new(
                "invalid_ios_diagnostic_timeout",
                "iOS diagnostic timeout must be between 250 and 30000 ms",
            ),
        );
    }
    Ok(ms)
}

pub open spec fn tool_of(kind: IosHostDiagnosticKind) -> Seq<char> {
    match kind {
        IosHostDiagnosticKind::DeviceInfo => "ideviceinfo"@,
        IosHostDiagnosticKind::Pairing => "idevicepair"@,
        IosHostDiagnosticKind::Apps => "ideviceinstaller"@,
        IosHostDiagnosticKind::Syslog => "idevicesyslog"@,
    }
}

/// The arguments: the device, `-n` for a network connection, then the
/// action's fixed words.
pub open spec fn invocation_args(kind: IosHostDiagnosticKind, udid: Seq<char>, network: bool) -> Seq<Seq<char>> {
    seq!["-u"@, udid] + (if network {
        seq!["-n"@]
    } else {
        Seq::empty()
    }) + match kind {
        IosHostDiagnosticKind::DeviceInfo => Seq::empty(),
        IosHostDiagnosticKind::Pairing => seq!["validate"@],
        IosHostDiagnosticKind::Apps => seq!["list"@, "--all"@],
        IosHostDiagnosticKind::Syslog => seq!["--no-colors"@],
    }
}

pub fn diagnostic_invocation(kind: IosHostDiagnosticKind, udid: &str, network: bool) -> (r: (
    &'static str,
    Vec<String>,
))
    ensures
        r.0@ == tool_of(kind),
        text::string_views(r.1@) == invocation_args(kind, udid@, network),
{
    let tool = match kind {
        IosHostDiagnosticKind::DeviceInfo => "ideviceinfo",
        IosHostDiagnosticKind::Pairing => "idevicepair",
        IosHostDiagnosticKind::Apps => "ideviceinstaller",
        IosHostDiagnosticKind::Syslog => "idevicesyslog",
    };
    let mut args: Vec<String> = Vec::new();
    text::push_str(&mut args, "-u");
    text::push_str(&mut args, udid);
    if network {
        text::push_str(&mut args, "-n");
    }
    match kind {
        IosHostDiagnosticKind::Pairing => text::push_str(&mut args, "validate"),
        IosHostDiagnosticKind::Apps => {
            text::push_str(&mut args, "list");
            text::push_str(&mut args, "--all");
        },
        IosHostDiagnosticKind::Syslog => text::push_str(&mut args, "--no-colors"),
        IosHostDiagnosticKind::DeviceInfo => {},
    }
    assert(text::string_views(args@) =~= invocation_args(kind, udid@, network));
    (tool, args)
}

pub open spec fn title_of(kind: IosHostDiagnosticKind) -> Seq<char> {
    match kind {
        IosHostDiagnosticKind::DeviceInfo => "libimobiledevice 设备信息"@,
        IosHostDiagnosticKind::Pairing => "配对状态"@,
        IosHostDiagnosticKind::Apps => "已安装应用"@,
        IosHostDiagnosticKind::Syslog => "设备实时日志采样"@,
    }
}

pub open spec fn source_of(kind: IosHostDiagnosticKind, timeout_ms: u64) -> Seq<char> {
    match kind {
        IosHostDiagnosticKind::DeviceInfo => "ideviceinfo"@,
        IosHostDiagnosticKind::Pairing => "idevicepair validate"@,
        IosHostDiagnosticKind::Apps => "ideviceinstaller list --all"@,
        IosHostDiagnosticKind::Syslog => "idevicesyslog · "@ + text::decimal(timeout_ms as nat) + " ms 采样"@,
    }
}

/// The title and source shown with a diagnostic.
pub fn diagnostic_metadata(kind: IosHostDiagnosticKind, timeout_ms: u64) -> (r: (&'static str, String))
    ensures
        r.0@ == title_of(kind),
        r.1@ == source_of(kind, timeout_ms),
{
    match kind {
        IosHostDiagnosticKind::DeviceInfo => ("libimobiledevice 设备信息", text::copy_str("ideviceinfo")),
        IosHostDiagnosticKind::Pairing => ("配对状态", text::copy_str("idevicepair validate")),
        IosHostDiagnosticKind::Apps => ("已安装应用", text::copy_str("ideviceinstaller list --all")),
        IosHostDiagnosticKind::Syslog => {
            let mut s = text::chars_of("idevicesyslog · ");
            text::append(&mut s, &text::decimal_exec(timeout_ms));
            text::append_str(&mut s, " ms 采样");
            ("设备实时日志采样", text::string_of(&s))
        },
    }
}

pub open spec fn long_suffix() -> Seq<char> {
    "\n…[output truncated]"@
}

/// The text cut to `max` bytes: when it is longer, its longest prefix on a
/// character boundary that leaves room for the marker, then the marker
/// (`\n…[output truncated]`, or `…` when the limit is shorter than that).
pub open spec fn limited(value: Seq<char>, max: nat) -> (Seq<char>, bool) {
    if text::utf8_len(value) <= max {
        (value, false)
    } else {
        let suffix = if max >= text::utf8_len(long_suffix()) {
            long_suffix()
        } else {
            "…"@
        };
        let room = if max >= text::utf8_len(suffix) {
            (max - text::utf8_len(suffix)) as nat
        } else {
            0
        };
        (text::utf8_prefix(value, room) + suffix, true)
    }
}

/// The text with `\r\n` and `\r` made `\n`, control characters other than
/// newline and tab removed, and trailing whitespace trimmed, then limited.
pub open spec fn sanitized(value: Seq<char>, max: nat) -> (Seq<char>, bool) {
    limited(text::trim_end(keep_printable(text::replace_char(text::replace_crlf(value), '\r', seq!['\n']))), max)
}

pub fn sanitize_and_limit(value: &str, max_bytes: usize) -> (r: (String, bool))
    ensures
        r.0@ == sanitized(value@, max_bytes as nat).0,
        r.1 == sanitized(value@, max_bytes as nat).1,
{
    let cs = text::chars_of(value);
    let a = text::replace_crlf_exec(&cs);
    let nl: Vec<char> = vec!['\n'];
    assert(nl@ =~= seq!['\n']);
    let b = text::replace_char_exec(&a, '\r', &nl);
    let c = filter_chars(&b, true);
    let t = text::trim_end_exec(&c);
    if text::utf8_fits(&t, max_bytes) {
        return (text::string_of(&t), false);
    }
    let long = text::chars_of("\n…[output truncated]");
    let long_len = text::utf8_len_capped(&long, 128);
    proof {
        reveal_strlit("\n…[output truncated]");
        text::lemma_utf8_len_bounds(long@);
    }
    let suffix = if max_bytes >= long_len {
        long
    } else {
        text::chars_of("…")
    };
    let suffix_len = text::utf8_len_capped(&suffix, 128);
    proof {
        reveal_strlit("…");
        text::lemma_utf8_len_bounds(suffix@);
    }
    let room = if max_bytes >= suffix_len {
        max_bytes - suffix_len
    } else {
        0
    };
    let mut out = text::utf8_prefix_exec(&t, room);
    text::append(&mut out, &suffix);
    (text::string_of(&out), true)
}

/// The message of a failed diagnostic: the trimmed error output, or the
/// trimmed standard output when that is blank, limited to 8 KiB; with
/// nothing to show, the exit status.
pub open spec fn failure_message(tool: Seq<char>, output: Seq<char>, stderr: Seq<char>, exit_code: Option<i32>) -> Seq<
    char,
> {
    let summary = if text::trim(stderr).len() == 0 {
        text::trim(output)
    } else {
        text::trim(stderr)
    };
    let s = sanitized(summary, MAX_ERROR_BYTES as nat).0;
    if s.len() == 0 {
        tool + " exited with status "@ + text::debug_status(exit_code)
    } else {
        tool + ": "@ + s
    }
}

/// The report of a finished diagnostic. A log sample ends by its time window
/// running out; any other diagnostic that ran out of time, or that exited
/// with a status other than 0, is an error.
pub fn diagnostic_result(
    request: &IosHostDiagnosticRequest,
    tool: &str,
    timeout_ms: u64,
    process: &ProcessOutput,
) -> (r: Result<IosHostDiagnosticResult, ApiError>)
    ensures
        process.timed_out && request.kind != IosHostDiagnosticKind::Syslog ==> (r matches Err(e) && is_error(
            e,
            "ios_host_diagnostic_timeout"@,
            tool@ + " did not finish within "@ + text::decimal(timeout_ms as nat) + " ms"@,
        )),
        !process.timed_out && process.exit_code != Some(0i32) ==> (r matches Err(e) && is_error(
            e,
            "ios_host_diagnostic_failed"@,
            failure_message(
                tool@,
                sanitized(process.stdout@, MAX_OUTPUT_BYTES as nat).0,
                sanitized(process.stderr@, MAX_STDERR_BYTES as nat).0,
                process.exit_code,
            ),
        )),
        (process.timed_out && request.kind == IosHostDiagnosticKind::Syslog) || (!process.timed_out
            && process.exit_code == Some(0i32)) ==> (r matches Ok(v) && {
            let out = sanitized(process.stdout@, MAX_OUTPUT_BYTES as nat);
            let err = sanitized(process.stderr@, MAX_STDERR_BYTES as nat);
            let truncated = process.truncated || out.1 || err.1;
            &&& v.success
            &&& v.kind == request.kind
            &&& v.title@ == title_of(request.kind)
            &&& v.source@ == source_of(request.kind, timeout_ms)
            &&& v.udid@ == request.udid@
            &&& v.network == request.network
            &&& v.tool@ == tool@
            &&& v.output@ == out.0
            &&& text::opt_view(v.stderr) == (if err.0.len() == 0 {
                None
            } else {
                Some(err.0)
            })
            &&& v.exit_code == process.exit_code
            &&& v.timed_out == process.timed_out
            &&& v.truncated == truncated
            &&& v.duration_ms == process.duration_ms
            &&& text::string_views(v.warnings@) == (if truncated {
                seq!["Output reached the bounded capture limit and was truncated"@]
            } else {
                Seq::empty()
            })
        }),
{
    let (output, output_truncated) = sanitize_and_limit(process.stdout.as_str(), MAX_OUTPUT_BYTES);
    let (stderr, stderr_truncated) = sanitize_and_limit(process.stderr.as_str(), MAX_STDERR_BYTES);
    let syslog = match request.kind {
        IosHostDiagnosticKind::Syslog => true,
        _ => false,
    };
    if process.timed_out && !syslog {
        let mut m = text::chars_of(tool);
        text::append_str(&mut m, " did not finish within ");
        text::append(&mut m, &text::decimal_exec(timeout_ms));
        text::append_str(&mut m, " ms");
        return Err(ApiError::with_message("ios_host_diagnostic_timeout", text::string_of(&m)));
    }
    let success = match process.exit_code {
        Some(c) => c == 0,
        None => false,
    };
    if !process.timed_out && !success {
        let err_trim = text::trim_exec(&text::chars_of(stderr.as_str()));
        let summary = if err_trim.len() == 0 {
            text::trim_exec(&text::chars_of(output.as_str()))
        } else {
            err_trim
        };
        let (s, _) = sanitize_and_limit(text::string_of(&summary).as_str(), MAX_ERROR_BYTES);
        let sv = text::chars_of(s.as_str());
        let mut m = text::chars_of(tool);
        if sv.len() == 0 {
            text::append_str(&mut m, " exited with status ");
            text::append_str(&mut m, text::debug_status_string(process.exit_code).as_str());
        } else {
            text::append_str(&mut m, ": ");
            text::append(&mut m, &sv);
        }
        return Err(ApiError::with_message("ios_host_diagnostic_failed", text::string_of(&m)));
    }
    let (title, source) = diagnostic_metadata(request.kind, timeout_ms);
    let truncated = process.truncated || output_truncated || stderr_truncated;
    let mut warnings: Vec<String> = Vec::new();
    if truncated {
        text::push_str(&mut warnings, "Output reached the bounded capture limit and was truncated");
    }
    assert(text::string_views(warnings@) =~= (if truncated {
        seq!["Output reached the bounded capture limit and was truncated"@]
    } else {
        Seq::empty()
    }));
    let ev = text::chars_of(stderr.as_str());
    let stderr_field = if ev.len() == 0 {
        None
    } else {
        Some(stderr)
    };
    Ok(
        IosHostDiagnosticResult {
            success: true,
            kind: request.kind,
            title: text::copy_str(title),
            source,
            udid: text::copy_string(&request.udid),
            network: request.network,
            tool: text::copy_str(tool),
            output,
            stderr: stderr_field,
            exit_code: process.exit_code,
            timed_out: process.timed_out,
            truncated,
            duration_ms: process.duration_ms,
            warnings,
        },
    )
}

} // verus!
