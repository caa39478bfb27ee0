//! The managed Android instrumentation server: where it may live, the ports
//! it uses, the device commands that install, start and stop it, and the
//! identity checks that keep Mobius from signalling a reused process id.
use crate::error::{is_error, ApiError};
use crate::models::{FridaPortMapping, FridaServerResult, MobilePlatform, StartFridaRequest};
use crate::text;
use crate::validation;
use vstd::prelude::*;

verus! {

/// The default device port of the server.
pub const DEFAULT_PORT: u16 = 27042;

/// The device and host ports: each explicit port, else the compatibility
/// port, else the default device port (and the host port follows the
/// device port).
pub open spec fn ports_of(device_port: Option<u16>, host_port: Option<u16>, compat: Option<u16>) -> (
    u16,
    u16,
) {
    let device = match device_port {
        Some(p) => p,
        None => match compat {
            Some(p) => p,
            None => DEFAULT_PORT,
        },
    };
    let host = match host_port {
        Some(p) => p,
        None => match compat {
            Some(p) => p,
            None => device,
        },
    };
    (device, host)
}

pub fn resolve_ports(request: &StartFridaRequest) -> (r: Result<(u16, u16), ApiError>)
    ensures
        ({
            let (d, h) = ports_of(request.device_port, request.host_port, request.port);
            &&& (d != 0 && h != 0) ==> r == Ok::<(u16, u16), ApiError>((d, h))
            &&& (d == 0 || h == 0) ==> (r matches Err(e) && is_error(
                e,
                "invalid_frida_port"@,
                "Device and host ports must each be between 1 and 65535"@,
            ))
        }),
{
    let device_port = match request.device_port {
        Some(p) => p,
        None => match request.port {
            Some(p) => p,
            None => DEFAULT_PORT,
        },
    };
    let host_port = match request.host_port {
        Some(p) => p,
        None => match request.port {
            Some(p) => p,
            None => device_port,
        },
    };
    if device_port == 0 || host_port == 0 {
        return Err(
            ApiError::new(
                "invalid_frida_port",
                "Device and host ports must each be between 1 and 65535",
            ),
        );
    }
    Ok((device_port, host_port))
}

/// The managed server lifecycle is implemented for Android only.
pub fn require_android(platform: Option<MobilePlatform>) -> (r: Result<(), ApiError>)
    ensures
        platform == Some(MobilePlatform::Ios) ==> (r matches Err(e) && is_error(
            e,
            "frida_ios_not_implemented"@,
            "Managed Frida server lifecycle currently supports Android only; Mobius will not pretend to manage a jailbroken iOS launch"@,
        )),
        platform != Some(MobilePlatform::Ios) ==> r is Ok,
{
    match platform {
        Some(MobilePlatform::Ios) => Err(
            ApiError::new(
                "frida_ios_not_implemented",
                "Managed Frida server lifecycle currently supports Android only; Mobius will not pretend to manage a jailbroken iOS launch",
            ),
        ),
        _ => Ok(()),
    }
}

/// The name of the server below `/data/local/tmp/`, when the path is a
/// direct child of that directory.
pub open spec fn tmp_child(path: Seq<char>) -> Option<Seq<char>> {
    match text::strip_prefix(path, "/data/local/tmp/"@) {
        Some(rel) => if rel.len() > 0 && !text::contains(rel, seq!['/']) {
            Some(rel)
        } else {
            None
        },
        None => None,
    }
}

/// The server name is neutral: it starts with `mobius-` and does not carry
/// the upstream tool name, in any letter case.
pub open spec fn neutral_name(rel: Seq<char>) -> bool {
    text::starts_with(text::lower(rel), "mobius-"@) && !text::contains(text::lower(rel), "frida"@)
}

/// Accepts the device path of the server: a valid remote path, a direct
/// child of `/data/local/tmp`, with a neutral name.
pub fn validate_frida_remote_path(value: &str) -> (r: Result<&str, ApiError>)
    ensures
        validation::remote_path_check(value@) matches Err((code, message)) ==> (r matches Err(e)
            && is_error(e, code, message)),
        validation::remote_path_check(value@) is Ok && tmp_child(value@) is None ==> (r matches Err(e)
            && is_error(
            e,
            "invalid_frida_remote_path"@,
            "Server path must be a direct child of /data/local/tmp"@,
        )),
        validation::remote_path_check(value@) is Ok ==> match tmp_child(value@) {
            Some(rel) => (!neutral_name(rel) ==> (r matches Err(e) && is_error(
                e,
                "invalid_frida_remote_path"@,
                "Remote server name must start with 'mobius-' and must not contain the upstream tool name"@,
            ))) && (neutral_name(rel) ==> r is Ok),
            None => true,
        },
        r matches Ok(p) ==> p@ == value@,
{
    let path = validation::remote_path(value)?;
    let cs = text::chars_of(path);
    let slash: Vec<char> = vec!['/'];
    assert(slash@ =~= seq!['/']);
    let rel = match text::strip_prefix_str(&cs, "/data/local/tmp/") {
        Some(rel) => {
            if rel.len() == 0 || text::contains_exec(&rel, &slash) {
                return Err(
                    ApiError::new(
                        "invalid_frida_remote_path",
                        "Server path must be a direct child of /data/local/tmp",
                    ),
                );
            }
            rel
        },
        None => {
            return Err(
                ApiError::new(
                    "invalid_frida_remote_path",
                    "Server path must be a direct child of /data/local/tmp",
                ),
            );
        },
    };
    let lower = text::lower_exec(&rel);
    if !text::starts_with_str(&lower, "mobius-") || text::contains_str(&lower, "frida") {
        return Err(
            ApiError::new(
                "invalid_frida_remote_path",
                "Remote server name must start with 'mobius-' and must not contain the upstream tool name",
            ),
        );
    }
    Ok(path)
}

/// The largest accepted server binary, 512 MiB.
pub const MAX_FRIDA_BYTES: u64 = 536870912;

/// Checks the selected local server binary: a non-empty regular file of at
/// most 512 MiB whose name begins with `frida-server` in any letter case.
pub fn check_frida_binary(is_file: bool, len: u64, file_name: &str) -> (r: Result<(), ApiError>)
    ensures
        !(is_file && len != 0 && len <= MAX_FRIDA_BYTES) ==> (r matches Err(e) && is_error(
            e,
            "invalid_frida_binary"@,
            "Server must be a non-empty regular file no larger than 512 MiB"@,
        )),
        (is_file && len != 0 && len <= MAX_FRIDA_BYTES) && !text::starts_with(
            text::lower(file_name@),
            "frida-server"@,
        ) ==> (r matches Err(e) && is_error(
            e,
            "invalid_frida_binary"@,
            "Selected local file name must begin with 'frida-server'"@,
        )),
        r is Ok <==> (is_file && len != 0 && len <= MAX_FRIDA_BYTES && text::starts_with(
            text::lower(file_name@),
            "frida-server"@,
        )),
{
    if !is_file || len == 0 || len > MAX_FRIDA_BYTES {
        return Err(
            ApiError::new(
                "invalid_frida_binary",
                "Server must be a non-empty regular file no larger than 512 MiB",
            ),
        );
    }
    let cs = text::chars_of(file_name);
    let lower = text::lower_exec(&cs);
    if !text::starts_with_str(&lower, "frida-server") {
        return Err(
            ApiError::new(
                "invalid_frida_binary",
                "Selected local file name must begin with 'frida-server'",
            ),
        );
    }
    Ok(())
}

/// The non-empty outputs, joined by a line break.
pub open spec fn joined(left: Seq<char>, right: Seq<char>) -> Seq<char> {
    if left.len() == 0 {
        right
    } else if right.len() == 0 {
        left
    } else {
        left + seq!['\n'] + right
    }
}

pub fn join_output(left: String, right: String) -> (r: String)
    ensures
        r@ == joined(left@, right@),
{
    if left.as_str().is_empty() {
        right
    } else if right.as_str().is_empty() {
        left
    } else {
        let mut c = text::chars_of(left.as_str());
        c.push('\n');
        text::append_str(&mut c, right.as_str());
        text::string_of(&c)
    }
}

/// The path the binary is first pushed to, next to its final path.
pub fn upload_temporary_path(remote_path: &str, process_id: u32, millis: u64) -> (r: String)
    ensures
        r@ == remote_path@ + ".mobius-upload-"@ + text::decimal(process_id as nat) + seq!['-']
            + text::decimal(millis as nat),
{
    let mut c = text::chars_of(remote_path);
    text::append_str(&mut c, ".mobius-upload-");
    let p = text::decimal_exec(process_id as u64);
    text::append(&mut c, &p);
    c.push('-');
    let m = text::decimal_exec(millis);
    text::append(&mut c, &m);
    text::string_of(&c)
}

/// The device command that makes the uploaded binary executable and moves
/// it into place.
pub fn install_command(temporary_path: &str, remote_path: &str) -> (r: String)
    ensures
        r@ == "chmod 0755 -- "@ + validation::quote(temporary_path@) + " && mv -f -- "@
            + validation::quote(temporary_path@) + seq![' '] + validation::quote(remote_path@),
{
    let t = validation::quote_remote(temporary_path);
    let p = validation::quote_remote(remote_path);
    let mut c = text::chars_of("chmod 0755 -- ");
    text::append_str(&mut c, t.as_str());
    text::append_str(&mut c, " && mv -f -- ");
    text::append_str(&mut c, t.as_str());
    c.push(' ');
    text::append_str(&mut c, p.as_str());
    text::string_of(&c)
}

pub open spec fn opt_nonempty(s: Seq<char>) -> Option<Seq<char>> {
    if s.len() == 0 {
        None
    } else {
        Some(s)
    }
}

fn nonempty_string(s: String) -> (r: Option<String>)
    ensures
        text::opt_view(r) == opt_nonempty(s@),
{
    if s.as_str().is_empty() {
        None
    } else {
        Some(s)
    }
}

/// The result of an upload, with the joined output of the push and the
/// install commands.
pub fn upload_result(remote_path: String, stdout: String, stderr: String) -> (r: FridaServerResult)
    ensures
        r.success && !r.active,
        r.platform == MobilePlatform::Android,
        r.message@ == "Instrumentation server uploaded as "@ + remote_path@,
        r.remote_path@ == remote_path@,
        r.pid is None && r.listen_address is None && r.device_port is None && r.host_port is None,
        r.mapping is None && r.mapping_active is None,
        text::opt_view(r.stdout) == opt_nonempty(stdout@),
        text::opt_view(r.stderr) == opt_nonempty(stderr@),
{
    let message = text::concat_strs("Instrumentation server uploaded as ", remote_path.as_str());
    FridaServerResult {
        success: true,
        message,
        platform: MobilePlatform::Android,
        active: false,
        remote_path,
        pid: None,
        listen_address: None,
        device_port: None,
        host_port: None,
        mapping: None,
        mapping_active: None,
        stdout: nonempty_string(stdout),
        stderr: nonempty_string(stderr),
    }
}

/// The server listens on device loopback only.
pub fn check_listen_address(listen_address: &str) -> (r: Result<(), ApiError>)
    ensures
        (listen_address@ == "127.0.0.1"@ || listen_address@ == "::1"@) ==> r is Ok,
        !(listen_address@ == "127.0.0.1"@ || listen_address@ == "::1"@) ==> (r matches Err(e)
            && is_error(
            e,
            "unsafe_frida_listen_address"@,
            "The instrumentation server may only listen on Android loopback; use the managed ADB forward for host access"@,
        )),
{
    if text::eq_str_str(listen_address, "127.0.0.1") || text::eq_str_str(listen_address, "::1") {
        Ok(())
    } else {
        Err(
            ApiError::new(
                "unsafe_frida_listen_address",
                "The instrumentation server may only listen on Android loopback; use the managed ADB forward for host access",
            ),
        )
    }
}

/// The device command that resolves the server path.
pub fn readlink_command(remote_path: &str) -> (r: String)
    ensures
        r@ == "readlink -f -- "@ + validation::quote(remote_path@),
{
    let q = validation::quote_remote(remote_path);
    text::concat_strs("readlink -f -- ", q.as_str())
}

/// The `-l` argument of the server.
pub open spec fn listen_spec(listen_address: Seq<char>, device_port: u16) -> Seq<char> {
    if listen_address == "::1"@ {
        "[::1]:"@ + text::decimal(device_port as nat)
    } else {
        "127.0.0.1:"@ + text::decimal(device_port as nat)
    }
}

pub fn listen_endpoint(listen_address: &str, device_port: u16) -> (r: String)
    ensures
        r@ == listen_spec(listen_address@, device_port),
{
    let d = text::decimal_string(device_port as u64);
    if text::eq_str_str(listen_address, "::1") {
        text::concat_strs("[::1]:", d.as_str())
    } else {
        text::concat_strs("127.0.0.1:", d.as_str())
    }
}

/// The device command that starts the server in the background and prints
/// its process id; it exits with status 41 when the binary is not executable.
pub fn launch_command(canonical_path: &str, listen: &str) -> (r: String)
    ensures
        r@ == "test -x "@ + validation::quote(canonical_path@) + " || exit 41; nohup "@
            + validation::quote(canonical_path@) + " -l "@ + validation::quote(listen@)
            + " </dev/null >/dev/null 2>&1 & pid=$!; echo \"$pid\""@,
{
    let p = validation::quote_remote(canonical_path);
    let l = validation::quote_remote(listen);
    let mut c = text::chars_of("test -x ");
    text::append_str(&mut c, p.as_str());
    text::append_str(&mut c, " || exit 41; nohup ");
    text::append_str(&mut c, p.as_str());
    text::append_str(&mut c, " -l ");
    text::append_str(&mut c, l.as_str());
    text::append_str(&mut c, " </dev/null >/dev/null 2>&1 & pid=$!; echo \"$pid\"");
    text::string_of(&c)
}

/// The last line, from the end, that holds a 32-bit number.
pub open spec fn last_number(ls: Seq<Seq<char>>) -> Option<nat>
    decreases ls.len(),
{
    if ls.len() == 0 {
        None
    } else {
        match text::parse_uint(text::trim(ls.last()), u32::MAX as nat) {
            Some(n) => Some(n),
            None => last_number(ls.drop_last()),
        }
    }
}

/// The process id printed by the launch command: the last numeric line,
/// which must be greater than 1.
pub fn parse_started_pid(stdout: &str) -> (r: Option<u32>)
    ensures
        match last_number(text::lines(stdout@)) {
            Some(n) => if n > 1 {
                r == Some(n as u32)
            } else {
                r is None
            },
            None => r is None,
        },
{
    let ls = text::lines_of(stdout);
    let ghost vs = text::views(ls@);
    let mut i: usize = ls.len();
    assert(vs.take(ls@.len() as int) =~= vs);
    while i > 0
        invariant
            vs == text::views(ls@),
            vs == text::lines(stdout@),
            i <= ls@.len(),
            last_number(vs) == last_number(vs.take(i as int)),
        decreases i,
    {
        let t = text::trim_exec(&ls[i - 1]);
        assert(vs.take(i as int).last() == ls@[i - 1]@);
        match text::parse_uint_exec(&t, 4294967295) {
            Some(n) => {
                if n > 1 {
                    return Some(n as u32);
                } else {
                    return None;
                }
            },
            None => {},
        }
        assert(vs.take(i as int).drop_last() =~= vs.take(i - 1));
        i = i - 1;
    }
    None
}

/// The executable and start time of a device process.
#[derive(Debug, Clone)]
pub struct ProcessIdentity {
    pub executable: String,
    pub start_time: String,
}

/// What the identity probe printed: the resolved executable on the first
/// line and `/proc/<pid>/stat` on the second; the start time is the 20th
/// field after the parenthesised process name. `Ok(None)` when the process
/// is gone; `Err` with the message when the metadata is unusable.
pub open spec fn identity_of(stdout: Seq<char>) -> Result<Option<(Seq<char>, Seq<char>)>, Seq<char>> {
    let ls = text::lines(stdout);
    if ls.len() == 0 || text::trim(ls[0]).len() == 0 {
        Ok(None)
    } else if ls.len() < 2 {
        Err("Missing /proc process metadata"@)
    } else {
        match text::rsplit_once(ls[1], ") "@) {
            None => Err("Malformed /proc process metadata"@),
            Some((_, rest)) => if text::words(rest).len() > 19 {
                Ok(Some((text::trim(ls[0]), text::words(rest)[19])))
            } else {
                Err("Missing process start time"@)
            },
        }
    }
}

/// The device command that prints a process's identity.
pub fn identity_command(pid: u32) -> (r: String)
    ensures
        r@ == "if [ -r /proc/"@ + text::decimal(pid as nat) + "/stat ]; then readlink -f /proc/"@
            + text::decimal(pid as nat) + "/exe; cat /proc/"@ + text::decimal(pid as nat)
            + "/stat; fi"@,
{
    let d = text::decimal_exec(pid as u64);
    let mut c = text::chars_of("if [ -r /proc/");
    text::append(&mut c, &d);
    text::append_str(&mut c, "/stat ]; then readlink -f /proc/");
    text::append(&mut c, &d);
    text::append_str(&mut c, "/exe; cat /proc/");
    text::append(&mut c, &d);
    text::append_str(&mut c, "/stat; fi");
    text::string_of(&c)
}

pub fn parse_process_identity(stdout: &str) -> (r: Result<Option<ProcessIdentity>, ApiError>)
    ensures
        match identity_of(stdout@) {
            Ok(None) => r matches Ok(None),
            Ok(Some((exe, start))) => r matches Ok(Some(id)) && id.executable@ == exe
                && id.start_time@ == start,
            Err(message) => r matches Err(e) && is_error(e, "frida_identity_error"@, message),
        },
{
    let ls = text::lines_of(stdout);
    if ls.len() == 0 {
        return Ok(None);
    }
    let exe = text::trim_exec(&ls[0]);
    if exe.len() == 0 {
        return Ok(None);
    }
    if ls.len() < 2 {
        return Err(ApiError::new("frida_identity_error", "Missing /proc process metadata"));
    }
    let rest = match text::rsplit_once_str(&ls[1], ") ") {
        Some((_, rest)) => rest,
        None => {
            return Err(ApiError::new("frida_identity_error", "Malformed /proc process metadata"));
        },
    };
    let fields = text::words_exec(&rest);
    if fields.len() <= 19 {
        return Err(ApiError::new("frida_identity_error", "Missing process start time"));
    }
    Ok(
        Some(
            ProcessIdentity {
                executable: text::string_of(&exe),
                start_time: text::string_of(&fields[19]),
            },
        ),
    )
}

/// A server process that this session started and still owns.
#[derive(Debug, Clone)]
pub struct ManagedFridaProcess {
    pub pid: u32,
    pub remote_path: String,
    pub start_time: String,
    pub use_su: bool,
    pub listen_address: String,
    pub device_port: u16,
    pub host_port: u16,
    pub forward_local_endpoint: String,
    pub forward_remote_endpoint: String,
    pub forward_owned: bool,
}

/// The probed process is still the one Mobius started: same executable and
/// same start time.
pub open spec fn same_process(identity: Option<ProcessIdentity>, managed: ManagedFridaProcess) -> bool {
    identity matches Some(id) && id.executable@ == managed.remote_path@ && id.start_time@
        == managed.start_time@
}

pub fn identity_matches(identity: &Option<ProcessIdentity>, managed: &ManagedFridaProcess) -> (r:
    bool)
    ensures
        r == same_process(*identity, *managed),
{
    match identity {
        Some(id) => text::eq_str_str(id.executable.as_str(), managed.remote_path.as_str())
            && text::eq_str_str(id.start_time.as_str(), managed.start_time.as_str()),
        None => false,
    }
}

/// Whether to signal the process during a rollback: not when it is gone,
/// never when its identity changed.
pub fn rollback_decision(identity: &Option<ProcessIdentity>, managed: &ManagedFridaProcess) -> (r:
    Result<bool, ApiError>)
    ensures
        identity is None ==> r == Ok::<bool, ApiError>(false),
        identity is Some && same_process(*identity, *managed) ==> r == Ok::<bool, ApiError>(true),
        identity is Some && !same_process(*identity, *managed) ==> (r matches Err(e) && is_error(
            e,
            "frida_rollback_identity_mismatch"@,
            "Rollback refused to signal a PID whose identity no longer matches"@,
        )),
{
    match identity {
        None => Ok(false),
        Some(_) => {
            if identity_matches(identity, managed) {
                Ok(true)
            } else {
                Err(
                    ApiError::new(
                        "frida_rollback_identity_mismatch",
                        "Rollback refused to signal a PID whose identity no longer matches",
                    ),
                )
            }
        },
    }
}

/// The device command that sends a signal to the server.
pub fn kill_command(pid: u32, force: bool) -> (r: String)
    ensures
        r@ == (if force {
            "kill -KILL "@
        } else {
            "kill -TERM "@
        }) + text::decimal(pid as nat),
{
    let d = text::decimal_string(pid as u64);
    if force {
        text::concat_strs("kill -KILL ", d.as_str())
    } else {
        text::concat_strs("kill -TERM ", d.as_str())
    }
}

/// A device command, run through `su -c` when the adb shell is not root.
pub fn frida_shell_command(command: &str, use_su: bool) -> (r: String)
    ensures
        r@ == (if use_su {
            "su -c "@ + validation::quote(command@)
        } else {
            command@
        }),
{
    if use_su {
        let q = validation::quote_remote(command);
        text::concat_strs("su -c ", q.as_str())
    } else {
        text::copy_str(command)
    }
}

/// `id -u` printed the root user id.
pub fn shell_is_root(id_stdout: &str) -> (r: bool)
    ensures
        r == (text::trim(id_stdout@) == "0"@),
{
    let cs = text::chars_of(id_stdout);
    let t = text::trim_exec(&cs);
    text::eq_str(&t, "0")
}

/// `tcp:<port>`.
pub fn tcp_endpoint(port: u16) -> (r: String)
    ensures
        r@ == "tcp:"@ + text::decimal(port as nat),
{
    let d = text::decimal_string(port as u64);
    text::concat_strs("tcp:", d.as_str())
}

/// The error of a start whose ADB forward failed.
pub fn forward_failure(error: &ApiError, rollback: Result<(), ApiError>) -> (r: ApiError)
    ensures
        rollback is Ok ==> r.code@ == "frida_forward_failed"@ && r.message@
            == "Server started but the managed loopback ADB forward failed: "@ + error.message@
            && r.details is None,
        rollback matches Err(re) ==> r.code@ == "frida_rollback_incomplete"@ && r.message@
            == "ADB forward failed ("@ + error.message@
            + "), and the started server could not be stopped ("@ + re.message@
            + "). It remains recorded for an explicit stop or exit cleanup."@ && r.details is None,
{
    match rollback {
        Ok(()) => ApiError::with_message(
            "frida_forward_failed",
            text::concat_strs(
                "Server started but the managed loopback ADB forward failed: ",
                error.message.as_str(),
            ),
        ),
        Err(re) => {
            let mut c = text::chars_of("ADB forward failed (");
            text::append_str(&mut c, error.message.as_str());
            text::append_str(&mut c, "), and the started server could not be stopped (");
            text::append_str(&mut c, re.message.as_str());
            text::append_str(&mut c, "). It remains recorded for an explicit stop or exit cleanup.");
            ApiError::with_message("frida_rollback_incomplete", text::string_of(&c))
        },
    }
}

/// The messages of the failed cleanup steps, joined by `; `.
pub open spec fn cleanup_details(a: Result<(), ApiError>, b: Result<(), ApiError>) -> Seq<char> {
    match (a, b) {
        (Err(x), Err(y)) => x.message@ + "; "@ + y.message@,
        (Err(x), Ok(())) => x.message@,
        (Ok(()), Err(y)) => y.message@,
        (Ok(()), Ok(())) => Seq::empty(),
    }
}

/// The error of a start whose registration failed: the registration error
/// itself when the forward and the process were both cleaned up, otherwise
/// a report of the incomplete rollback.
pub fn registration_failure(
    error: ApiError,
    forward_cleanup: Result<(), ApiError>,
    process_cleanup: Result<(), ApiError>,
) -> (r: ApiError)
    ensures
        (forward_cleanup is Ok && process_cleanup is Ok) ==> r == error,
        !(forward_cleanup is Ok && process_cleanup is Ok) ==> r.code@
            == "frida_rollback_incomplete"@ && r.message@ == "Managed-state registration failed ("@
            + error.message@ + "), and rollback was incomplete ("@ + cleanup_details(
            forward_cleanup,
            process_cleanup,
        ) + "). The resource remains recorded for an explicit stop or exit cleanup."@
            && r.details is None,
{
    let details: String = match (&forward_cleanup, &process_cleanup) {
        (Ok(()), Ok(())) => {
            return error;
        },
        (Err(x), Err(y)) => {
            let mut c = text::chars_of(x.message.as_str());
            text::append_str(&mut c, "; ");
            text::append_str(&mut c, y.message.as_str());
            text::string_of(&c)
        },
        (Err(x), Ok(())) => text::copy_string(&x.message),
        (Ok(()), Err(y)) => text::copy_string(&y.message),
    };
    let mut c = text::chars_of("Managed-state registration failed (");
    text::append_str(&mut c, error.message.as_str());
    text::append_str(&mut c, "), and rollback was incomplete (");
    text::append_str(&mut c, details.as_str());
    text::append_str(
        &mut c,
        "). The resource remains recorded for an explicit stop or exit cleanup.",
    );
    ApiError::with_message("frida_rollback_incomplete", text::string_of(&c))
}

/// The result of an instrumentation server operation.
pub fn server_result(
    active: bool,
    message: String,
    remote_path: &str,
    pid: Option<u32>,
    listen_address: Option<&str>,
    device_port: Option<u16>,
    host_port: Option<u16>,
    endpoints: Option<(&str, &str)>,
    mapping_active: Option<bool>,
    stdout: Option<String>,
    stderr: Option<String>,
) -> (r: FridaServerResult)
    ensures
        r.success,
        r.message == message,
        r.platform == MobilePlatform::Android,
        r.active == active,
        r.remote_path@ == remote_path@,
        r.pid == pid,
        text::opt_view(r.listen_address) == match listen_address {
            Some(a) => Some(a@),
            None => None::<Seq<char>>,
        },
        r.device_port == device_port,
        r.host_port == host_port,
        match endpoints {
            Some((l, m)) => r.mapping matches Some(mp) && mp.direction@ == "forward"@ && mp.local@
                == l@ && mp.remote@ == m@,
            None => r.mapping is None,
        },
        r.mapping_active == mapping_active,
        r.stdout == stdout,
        r.stderr == stderr,
{
    FridaServerResult {
        success: true,
        message,
        platform: MobilePlatform::Android,
        active,
        remote_path: text::copy_str(remote_path),
        pid,
        listen_address: match listen_address {
            Some(a) => Some(text::copy_str(a)),
            None => None,
        },
        device_port,
        host_port,
        mapping: match endpoints {
            Some((l, m)) => Some(
                FridaPortMapping {
                    direction: text::copy_str("forward"),
                    local: text::copy_str(l),
                    remote: text::copy_str(m),
                },
            ),
            None => None,
        },
        mapping_active,
        stdout,
        stderr,
    }
}

/// The message of a successful start.
pub fn start_message(listen: &str, host_port: u16) -> (r: String)
    ensures
        r@ == "Instrumentation server is running on device "@ + listen@
            + "; host access is 127.0.0.1:"@ + text::decimal(host_port as nat),
{
    let mut c = text::chars_of("Instrumentation server is running on device ");
    text::append_str(&mut c, listen);
    text::append_str(&mut c, "; host access is 127.0.0.1:");
    let d = text::decimal_exec(host_port as u64);
    text::append(&mut c, &d);
    text::string_of(&c)
}

/// How a stop treats the recorded process.
#[derive(Debug, Clone, Copy, PartialEq, Eq, Structural)]
pub enum StopDecision {
    /// The recorded process is still running: signal it.
    Terminate,
    /// The process id now belongs to another process: leave it alone.
    LeaveReused,
    /// The process is gone.
    AlreadyStopped,
}

pub fn stop_decision(identity: &Option<ProcessIdentity>, managed: &ManagedFridaProcess) -> (r:
    StopDecision)
    ensures
        same_process(*identity, *managed) ==> r == StopDecision::Terminate,
        identity is Some && !same_process(*identity, *managed) ==> r == StopDecision::LeaveReused,
        identity is None ==> r == StopDecision::AlreadyStopped,
{
    if identity_matches(identity, managed) {
        StopDecision::Terminate
    } else if identity.is_some() {
        StopDecision::LeaveReused
    } else {
        StopDecision::AlreadyStopped
    }
}

pub open spec fn stop_message_spec(d: StopDecision) -> Seq<char> {
    match d {
        StopDecision::Terminate => "Instrumentation server stopped"@,
        StopDecision::LeaveReused => "Recorded PID was reused by another process and was left untouched"@,
        StopDecision::AlreadyStopped => "Instrumentation server was already stopped"@,
    }
}

pub fn stop_message(d: StopDecision) -> (r: String)
    ensures
        r@ == stop_message_spec(d),
{
    match d {
        StopDecision::Terminate => text::copy_str("Instrumentation server stopped"),
        StopDecision::LeaveReused => text::copy_str(
            "Recorded PID was reused by another process and was left untouched",
        ),
        StopDecision::AlreadyStopped => text::copy_str("Instrumentation server was already stopped"),
    }
}

/// `adb forward --list` still shows the server's forward: a row of the
/// device with both endpoints, or a bare two-endpoint row.
pub open spec fn forward_row(f: Seq<Seq<char>>, serial: Seq<char>, local: Seq<char>, remote: Seq<char>) -> bool {
    (f.len() >= 3 && f[0] == serial && f[1] == local && f[2] == remote) || (f.len() == 2 && f[0]
        == local && f[1] == remote)
}

pub open spec fn forward_listed_spec(ls: Seq<Seq<char>>, serial: Seq<char>, local: Seq<char>, remote: Seq<char>) -> bool {
    exists|i: int| 0 <= i < ls.len() && forward_row(text::words(#[trigger] ls[i]), serial, local, remote)
}

pub fn forward_listed(stdout: &str, serial: &str, local: &str, remote: &str) -> (r: bool)
    ensures
        r == forward_listed_spec(text::lines(stdout@), serial@, local@, remote@),
{
    let ls = text::lines_of(stdout);
    let ghost vs = text::views(ls@);
    let mut i: usize = 0;
    while i < ls.len()
        invariant
            vs == text::views(ls@),
            vs == text::lines(stdout@),
            i <= ls@.len(),
            forall|j: int|
                0 <= j < i ==> !forward_row(text::words(#[trigger] vs[j]), serial@, local@, remote@),
        decreases ls@.len() - i,
    {
        let f = text::words_exec(&ls[i]);
        assert(vs[i as int] == ls@[i as int]@);
        let ghost fv = text::views(f@);
        let hit = if f.len() >= 3 {
            text::eq_str(&f[0], serial) && text::eq_str(&f[1], local) && text::eq_str(&f[2], remote)
        } else if f.len() == 2 {
            text::eq_str(&f[0], local) && text::eq_str(&f[1], remote)
        } else {
            false
        };
        assert(f.len() >= 3 ==> fv[0] == f@[0]@ && fv[1] == f@[1]@ && fv[2] == f@[2]@);
        assert(f.len() == 2 ==> fv[0] == f@[0]@ && fv[1] == f@[1]@);
        if hit {
            assert(forward_row(text::words(vs[i as int]), serial@, local@, remote@));
            return true;
        }
        i = i + 1;
    }
    false
}

/// The state of the server's forward after a stop: whether it is still
/// active (`None` when unknown), a warning, and whether the port registry
/// should forget it.
pub fn forward_cleanup_outcome(listed: Result<bool, ApiError>, removal: Option<Result<(), ApiError>>) -> (r: (
    Option<bool>,
    Option<String>,
    bool,
))
    requires
        listed == Ok::<bool, ApiError>(true) <==> removal is Some,
    ensures
        listed matches Err(e) ==> r.0 is None && text::opt_view(r.1) == Some(
            "ADB forward could not be verified: "@ + e.message@,
        ) && !r.2,
        listed == Ok::<bool, ApiError>(false) ==> r.0 == Some(false) && text::opt_view(r.1) == Some(
            "ADB forward changed externally and was left untouched"@,
        ) && r.2,
        listed == Ok::<bool, ApiError>(true) ==> match removal {
            Some(Ok(())) => r.0 == Some(false) && r.1 is None && r.2,
            Some(Err(e)) => r.0 == Some(true) && text::opt_view(r.1) == Some(
                "ADB forward cleanup failed: "@ + e.message@,
            ) && !r.2,
            None => true,
        },
{
    match listed {
        Err(e) => (
            None,
            Some(text::concat_strs("ADB forward could not be verified: ", e.message.as_str())),
            false,
        ),
        Ok(false) => (
            Some(false),
            Some(text::copy_str("ADB forward changed externally and was left untouched")),
            true,
        ),
        Ok(true) => match removal {
            Some(Ok(())) => (Some(false), None, true),
            Some(Err(e)) => (
                Some(true),
                Some(text::concat_strs("ADB forward cleanup failed: ", e.message.as_str())),
                false,
            ),
            None => {
                assert(false);
                (None, None, false)
            },
        },
    }
}

/// A server binary may be replaced unless the application is exiting or it
/// manages a server on the device.
pub fn check_upload_slot(shutting_down: bool, server_managed: bool) -> (r: Result<(), ApiError>)
    ensures
        shutting_down ==> (r matches Err(e) && is_error(
            e,
            "app_shutting_down"@,
            "Mobius is exiting and cannot upload a managed server"@,
        )),
        !shutting_down && server_managed ==> (r matches Err(e) && is_error(
            e,
            "frida_server_active"@,
            "Stop the Mobius-managed server on this device before replacing its binary"@,
        )),
        !shutting_down && !server_managed ==> r is Ok,
{
    if shutting_down {
        return Err(ApiError::new("app_shutting_down", "Mobius is exiting and cannot upload a managed server"));
    }
    if server_managed {
        return Err(
            ApiError::new("frida_server_active", "Stop the Mobius-managed server on this device before replacing its binary"),
        );
    }
    Ok(())
}

/// A server may be launched unless the application is exiting or it
/// manages one on the device already.
pub fn check_start_slot(shutting_down: bool, server_managed: bool) -> (r: Result<(), ApiError>)
    ensures
        shutting_down ==> (r matches Err(e) && is_error(
            e,
            "app_shutting_down"@,
            "Mobius is exiting and cannot launch a managed server"@,
        )),
        !shutting_down && server_managed ==> (r matches Err(e) && is_error(
            e,
            "frida_already_managed"@,
            "Mobius is already managing an instrumentation server for this device"@,
        )),
        !shutting_down && !server_managed ==> r is Ok,
{
    if shutting_down {
        return Err(ApiError::new("app_shutting_down", "Mobius is exiting and cannot launch a managed server"));
    }
    if server_managed {
        return Err(
            ApiError::new("frida_already_managed", "Mobius is already managing an instrumentation server for this device"),
        );
    }
    Ok(())
}

/// The launched process must run the binary that was asked for.
pub fn check_started_identity(executable: &str, canonical_path: &str) -> (r: Result<(), ApiError>)
    ensures
        executable@ == canonical_path@ ==> r is Ok,
        executable@ != canonical_path@ ==> (r matches Err(e) && is_error(
            e,
            "frida_identity_mismatch"@,
            "Started process identity did not match the requested binary"@,
        )),
{
    if text::eq_str_str(executable, canonical_path) {
        Ok(())
    } else {
        Err(ApiError::new("frida_identity_mismatch", "Started process identity did not match the requested binary"))
    }
}

} // verus!
