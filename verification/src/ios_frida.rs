//! The managed instrumentation server on a jailbroken iOS device: neutral,
//! confined remote paths, the Mach-O check of the uploaded binary, the
//! launch and identity commands, the stop sequence and the cleanup.
use crate::error::{is_error, ApiError};
use crate::ios_apps::runtime_dir;
use crate::ios_ssh::{self, IosSshConnection};
use crate::models::IosFridaServerResult;
use crate::text;
use crate::validation;
use vstd::prelude::*;

verus! {

pub const DEFAULT_FRIDA_PORT: u16 = 27042;

pub const MAX_SERVER_BYTES: u64 = 536870912;

pub const PROCESS_STOP_ATTEMPTS: usize = 15;

// ---------------------------------------------------------------------------
// Remote paths
// ---------------------------------------------------------------------------

pub open spec fn no_runtime_root() -> (Seq<char>, Seq<char>) {
    ("invalid_allowed_roots"@, "The SSH session has no allowed root for its managed runtime directory"@)
}

/// A managed path is a remote path inside the session's private runtime
/// directory that does not name the upstream tool (in any letter case).
pub open spec fn managed_path_check(c: IosSshConnection, value: Seq<char>) -> Result<(), (Seq<char>, Seq<char>)> {
    match validation::remote_path_check(value) {
        Err(e) => Err(e),
        Ok(()) => if text::contains(text::lower(value), "frida"@) {
            Err(
                (
                    "unsafe_ios_server_path"@,
                    "The managed remote path must not contain the upstream tool name"@,
                ),
            )
        } else {
            match runtime_dir(c) {
                None => Err(no_runtime_root()),
                Some(d) => if ios_ssh::path_within(value, d) {
                    Ok(())
                } else {
                    Err(
                        (
                            "unsafe_ios_server_path"@,
                            "The managed remote path is outside Mobius's private runtime directory"@,
                        ),
                    )
                },
            }
        },
    }
}

fn managed_runtime_directory(connection: &IosSshConnection) -> (r: Option<String>)
    ensures
        text::opt_view(r) == runtime_dir(*connection),
{
    match crate::ios_apps::runtime_directory(connection) {
        Ok(d) => Some(d),
        Err(_) => None,
    }
}

pub fn validate_managed_remote_path(connection: &IosSshConnection, value: &str) -> (r: Result<(), ApiError>)
    ensures
        match managed_path_check(*connection, value@) {
            Ok(()) => r is Ok,
            Err((code, message)) => r matches Err(e) && is_error(e, code, message),
        },
{
    match validation::remote_path(value) {
        Ok(_) => {},
        Err(e) => {
            return Err(e);
        },
    }
    let cs = text::chars_of(value);
    let lowered = text::lower_exec(&cs);
    if text::contains_str(&lowered, "frida") {
        return Err(
            ApiError::new(
                "unsafe_ios_server_path",
                "The managed remote path must not contain the upstream tool name",
            ),
        );
    }
    let runtime = match managed_runtime_directory(connection) {
        Some(d) => d,
        None => {
            return Err(
                ApiError::new(
                    "invalid_allowed_roots",
                    "The SSH session has no allowed root for its managed runtime directory",
                ),
            );
        },
    };
    if !ios_ssh::is_path_within(value, runtime.as_str()) {
        return Err(
            ApiError::new(
                "unsafe_ios_server_path",
                "The managed remote path is outside Mobius's private runtime directory",
            ),
        );
    }
    Ok(())
}

/// The runtime directory and the two files of an upload.
#[derive(Debug, Clone)]
pub struct RemotePaths {
    pub runtime_directory: String,
    pub temporary_path: String,
    pub installed_path: String,
}

/// The paths of an upload, named `.upload-<suffix>` and `.service-<suffix>`
/// in the runtime directory; every one of them must be a managed path.
pub fn create_remote_paths(connection: &IosSshConnection, suffix: &str) -> (r: Result<RemotePaths, ApiError>)
    ensures
        match runtime_dir(*connection) {
            None => r matches Err(e) && is_error(e, no_runtime_root().0, no_runtime_root().1),
            Some(d) => {
                let t = d + "/.upload-"@ + suffix@;
                let i = d + "/.service-"@ + suffix@;
                match (
                    managed_path_check(*connection, d),
                    managed_path_check(*connection, t),
                    managed_path_check(*connection, i),
                ) {
                    (Ok(()), Ok(()), Ok(())) => r matches Ok(p) && p.runtime_directory@ == d
                        && p.temporary_path@ == t && p.installed_path@ == i,
                    (Err((code, message)), _, _) => r matches Err(e) && is_error(e, code, message),
                    (Ok(()), Err((code, message)), _) => r matches Err(e) && is_error(e, code, message),
                    (Ok(()), Ok(()), Err((code, message))) => r matches Err(e) && is_error(
                        e,
                        code,
                        message,
                    ),
                }
            },
        },
{
    let runtime = match managed_runtime_directory(connection) {
        Some(d) => d,
        None => {
            return Err(
                ApiError::new(
                    "invalid_allowed_roots",
                    "The SSH session has no allowed root for its managed runtime directory",
                ),
            );
        },
    };
    match validate_managed_remote_path(connection, runtime.as_str()) {
        Ok(()) => {},
        Err(e) => {
            return Err(e);
        },
    }
    let mut t = text::chars_of(runtime.as_str());
    text::append_str(&mut t, "/.upload-");
    text::append_str(&mut t, suffix);
    let temporary = text::string_of(&t);
    let mut i = text::chars_of(runtime.as_str());
    text::append_str(&mut i, "/.service-");
    text::append_str(&mut i, suffix);
    let installed = text::string_of(&i);
    match validate_managed_remote_path(connection, temporary.as_str()) {
        Ok(()) => {},
        Err(e) => {
            return Err(e);
        },
    }
    match validate_managed_remote_path(connection, installed.as_str()) {
        Ok(()) => {},
        Err(e) => {
            return Err(e);
        },
    }
    Ok(RemotePaths { runtime_directory: runtime, temporary_path: temporary, installed_path: installed })
}

/// The device command that prepares the runtime directory, for a managed
/// directory only.
pub fn prepare_runtime_command(connection: &IosSshConnection, directory: &str) -> (r: Result<String, ApiError>)
    ensures
        match managed_path_check(*connection, directory@) {
            Ok(()) => r matches Ok(s) && s@ == "if [ -L "@ + validation::quote(directory@)
                + " ]; then exit 74; fi; mkdir -p "@ + validation::quote(directory@) + " && chmod 700 "@
                + validation::quote(directory@) + " && cd "@ + validation::quote(directory@)
                + " && [ \"$(pwd -P)\" = "@ + validation::quote(directory@) + " ]"@,
            Err((code, message)) => r matches Err(e) && is_error(e, code, message),
        },
{
    match validate_managed_remote_path(connection, directory) {
        Ok(()) => {},
        Err(e) => {
            return Err(e);
        },
    }
    Ok(crate::ios_apps::prepare_runtime_command(directory))
}

pub open spec fn managed_name_char(c: char) -> bool {
    text::is_alnum(c) || c == '.' || c == '-'
}

/// The file name of a generated path: the part after the last `/`, not
/// empty, of ASCII letters, digits, `.` and `-` only.
pub open spec fn managed_file_name(path: Seq<char>) -> Option<Seq<char>> {
    match text::rsplit_once(path, seq!['/']) {
        Some((_, name)) => if name.len() > 0 && forall|i: int|
            0 <= i < name.len() ==> managed_name_char(#[trigger] name[i]) {
            Some(name)
        } else {
            None
        },
        None => None,
    }
}

pub fn remote_file_name(path: &str) -> (r: Result<String, ApiError>)
    ensures
        match managed_file_name(path@) {
            Some(n) => r matches Ok(s) && s@ == n,
            None => r matches Err(e) && is_error(
                e,
                "unsafe_ios_server_path"@,
                "The generated managed filename is invalid"@,
            ),
        },
{
    let cs = text::chars_of(path);
    let slash: Vec<char> = vec!['/'];
    assert(slash@ =~= seq!['/']);
    let name = match text::rsplit_once_exec(&cs, &slash) {
        Some((_, n)) => n,
        None => {
            return Err(ApiError::new("unsafe_ios_server_path", "The generated managed filename is invalid"));
        },
    };
    let mut ok = name.len() > 0;
    let mut i: usize = 0;
    while i < name.len()
        invariant
            i <= name@.len(),
            ok == (name@.len() > 0 && forall|j: int| 0 <= j < i ==> managed_name_char(#[trigger] name@[j])),
        decreases name@.len() - i,
    {
        let c = name[i];
        if !(text::is_alnum_exec(c) || c == '.' || c == '-') {
            ok = false;
        }
        i = i + 1;
    }
    if !ok {
        return Err(ApiError::new("unsafe_ios_server_path", "The generated managed filename is invalid"));
    }
    Ok(text::string_of(&name))
}

// ---------------------------------------------------------------------------
// Uploading
// ---------------------------------------------------------------------------

/// The Mach-O magics: 32- and 64-bit thin headers in either byte order, and
/// the 32- and 64-bit universal headers in either byte order.
pub open spec fn macho_magic(m: Seq<u8>) -> bool {
    ||| m == seq![0xceu8, 0xfau8, 0xedu8, 0xfeu8]
    ||| m == seq![0xfeu8, 0xedu8, 0xfau8, 0xceu8]
    ||| m == seq![0xcfu8, 0xfau8, 0xedu8, 0xfeu8]
    ||| m == seq![0xfeu8, 0xedu8, 0xfau8, 0xcfu8]
    ||| m == seq![0xcau8, 0xfeu8, 0xbau8, 0xbeu8]
    ||| m == seq![0xbeu8, 0xbau8, 0xfeu8, 0xcau8]
    ||| m == seq![0xcau8, 0xfeu8, 0xbau8, 0xbfu8]
    ||| m == seq![0xbfu8, 0xbau8, 0xfeu8, 0xcau8]
}

pub fn is_macho_magic(magic: [u8; 4]) -> (r: bool)
    ensures
        r == macho_magic(magic@),
{
    let a = magic[0];
    let b = magic[1];
    let c = magic[2];
    let d = magic[3];
    let r = (a == 0xce && b == 0xfa && c == 0xed && d == 0xfe) || (a == 0xfe && b == 0xed && c == 0xfa
        && d == 0xce) || (a == 0xcf && b == 0xfa && c == 0xed && d == 0xfe) || (a == 0xfe && b == 0xed
        && c == 0xfa && d == 0xcf) || (a == 0xca && b == 0xfe && c == 0xba && d == 0xbe) || (a == 0xbe
        && b == 0xba && c == 0xfe && d == 0xca) || (a == 0xca && b == 0xfe && c == 0xba && d == 0xbf)
        || (a == 0xbf && b == 0xba && c == 0xfe && d == 0xca);
    proof {
        let m = magic@;
        assert(m.len() == 4);
        if r {
            assert(m =~= seq![a, b, c, d]);
        } else {
            assert(m =~= seq![a, b, c, d]);
        }
    }
    r
}

/// The selected server must be a regular file (not a link) of 4 bytes to
/// 512 MiB.
pub fn check_server_file(is_symlink: bool, is_file: bool, len: u64) -> (r: Result<(), ApiError>)
    ensures
        (is_symlink || !is_file) ==> (r matches Err(e) && is_error(
            e,
            "invalid_ios_frida_binary"@,
            "The selected iOS server must be a regular local file, not a symbolic link"@,
        )),
        !is_symlink && is_file && (len < 4 || len > MAX_SERVER_BYTES) ==> (r matches Err(e) && is_error(
            e,
            "invalid_ios_frida_binary"@,
            "The selected iOS server must be between 4 bytes and 512 MiB"@,
        )),
        !is_symlink && is_file && 4 <= len <= MAX_SERVER_BYTES ==> r is Ok,
{
    if is_symlink || !is_file {
        return Err(
            ApiError::new(
                "invalid_ios_frida_binary",
                "The selected iOS server must be a regular local file, not a symbolic link",
            ),
        );
    }
    if len < 4 || len > MAX_SERVER_BYTES {
        return Err(
            ApiError::new("invalid_ios_frida_binary", "The selected iOS server must be between 4 bytes and 512 MiB"),
        );
    }
    Ok(())
}

/// The file must start with a Mach-O magic.
pub fn check_server_magic(magic: [u8; 4]) -> (r: Result<(), ApiError>)
    ensures
        macho_magic(magic@) ==> r is Ok,
        !macho_magic(magic@) ==> (r matches Err(e) && is_error(
            e,
            "invalid_ios_frida_binary"@,
            "The selected file is not an uncompressed thin or universal Mach-O binary"@,
        )),
{
    if !is_macho_magic(magic) {
        return Err(
            ApiError::new(
                "invalid_ios_frida_binary",
                "The selected file is not an uncompressed thin or universal Mach-O binary",
            ),
        );
    }
    Ok(())
}

/// A binary can be replaced only while no managed server runs.
pub fn check_no_active_server(active: bool, message: &str) -> (r: Result<(), ApiError>)
    ensures
        !active ==> r is Ok,
        active ==> (r matches Err(e) && is_error(e, "ios_frida_server_active"@, message@)),
{
    if active {
        return Err(ApiError::new("ios_frida_server_active", message));
    }
    Ok(())
}

/// The device command that moves the uploaded file to its installed name
/// inside the (physical) runtime directory and confirms with a marker.
pub open spec fn install_upload_command(directory: Seq<char>, temporary: Seq<char>, installed: Seq<char>) -> Seq<char> {
    let d = validation::quote(directory);
    let t = validation::quote(seq!['.', '/'] + temporary);
    let i = validation::quote(seq!['.', '/'] + installed);
    "cd "@ + d + " && [ \"$(pwd -P)\" = "@ + d + " ] && [ -f "@ + t + " ] && [ ! -L "@ + t
        + " ] && chmod 700 "@ + t + " && mv -f "@ + t + seq![' '] + i
        + " && printf 'MOBIUS_IOS_SERVICE_READY\\n'"@
}

pub fn install_upload_cmd(paths: &RemotePaths) -> (r: Result<String, ApiError>)
    ensures
        match (managed_file_name(paths.temporary_path@), managed_file_name(paths.installed_path@)) {
            (Some(t), Some(i)) => r matches Ok(s) && s@ == install_upload_command(
                paths.runtime_directory@,
                t,
                i,
            ),
            (None, _) => r matches Err(e) && is_error(
                e,
                "unsafe_ios_server_path"@,
                "The generated managed filename is invalid"@,
            ),
            (Some(_), None) => r matches Err(e) && is_error(
                e,
                "unsafe_ios_server_path"@,
                "The generated managed filename is invalid"@,
            ),
        },
{
    let t = match remote_file_name(paths.temporary_path.as_str()) {
        Ok(n) => n,
        Err(e) => {
            return Err(e);
        },
    };
    let i = match remote_file_name(paths.installed_path.as_str()) {
        Ok(n) => n,
        Err(e) => {
            return Err(e);
        },
    };
    let d = validation::quote_remote(paths.runtime_directory.as_str());
    let mut tp: Vec<char> = vec!['.', '/'];
    text::append_str(&mut tp, t.as_str());
    let tq = validation::quote_chars(&tp);
    let mut ip: Vec<char> = vec!['.', '/'];
    text::append_str(&mut ip, i.as_str());
    let iq = validation::quote_chars(&ip);
    let mut out = text::chars_of("cd ");
    text::append_str(&mut out, d.as_str());
    text::append_str(&mut out, " && [ \"$(pwd -P)\" = ");
    text::append_str(&mut out, d.as_str());
    text::append_str(&mut out, " ] && [ -f ");
    text::append(&mut out, &tq);
    text::append_str(&mut out, " ] && [ ! -L ");
    text::append(&mut out, &tq);
    text::append_str(&mut out, " ] && chmod 700 ");
    text::append(&mut out, &tq);
    text::append_str(&mut out, " && mv -f ");
    text::append(&mut out, &tq);
    out.push(' ');
    text::append(&mut out, &iq);
    text::append_str(&mut out, " && printf 'MOBIUS_IOS_SERVICE_READY\\n'");
    assert(tp@ =~= seq!['.', '/'] + t@);
    assert(ip@ =~= seq!['.', '/'] + i@);
    assert(out@ =~= install_upload_command(paths.runtime_directory@, t@, i@));
    Ok(text::string_of(&out))
}

/// The device must confirm the installation of the upload.
pub fn check_upload_confirmed(stdout: &str) -> (r: Result<(), ApiError>)
    ensures
        text::has_trimmed_line(text::lines(stdout@), "MOBIUS_IOS_SERVICE_READY"@) ==> r is Ok,
        !text::has_trimmed_line(text::lines(stdout@), "MOBIUS_IOS_SERVICE_READY"@) ==> (r matches Err(e)
            && is_error(
            e,
            "ios_frida_upload_validation_failed"@,
            "The device did not confirm the managed server installation"@,
        )),
{
    let ls = text::lines_of(stdout);
    if text::has_trimmed_line_exec(&ls, "MOBIUS_IOS_SERVICE_READY") {
        Ok(())
    } else {
        Err(
            ApiError::new(
                "ios_frida_upload_validation_failed",
                "The device did not confirm the managed server installation",
            ),
        )
    }
}

/// A previous upload is removed after a new one is installed, unless it
/// is the same file.
pub fn previous_upload_to_remove(previous: Option<String>, installed: &str) -> (r: Option<String>)
    ensures
        text::opt_view(r) == match previous {
            Some(p) => if p@ != installed@ {
                Some(p@)
            } else {
                None::<Seq<char>>
            },
            None => None::<Seq<char>>,
        },
{
    match previous {
        Some(p) => if !text::eq_str_str(p.as_str(), installed) {
            Some(p)
        } else {
            None
        },
        None => None,
    }
}

/// The result of a finished upload.
pub fn upload_result(session_id: String, installed_path: String) -> (r: IosFridaServerResult)
    ensures
        r.success && !r.active,
        r.message@ == "iOS instrumentation server uploaded with a neutral managed name"@,
        r.session_id@ == session_id@,
        r.remote_path@ == installed_path@,
        r.pid is None && r.listen_address is None && r.device_port is None && r.host_port is None
            && r.tunnel_pid is None,
        r.tunnel_active == Some(false),
{
    IosFridaServerResult {
        success: true,
        message: text::copy_str("iOS instrumentation server uploaded with a neutral managed name"),
        session_id,
        active: false,
        remote_path: installed_path,
        pid: None,
        listen_address: None,
        device_port: None,
        host_port: None,
        tunnel_pid: None,
        tunnel_active: Some(false),
    }
}


// ---------------------------------------------------------------------------
// Starting
// ---------------------------------------------------------------------------

/// Starting the server needs a session that runs as root.
pub fn require_root_for_server(remote_uid: Option<u32>) -> (r: Result<(), ApiError>)
    ensures
        remote_uid == Some(0u32) ==> r is Ok,
        remote_uid != Some(0u32) ==> (r matches Err(e) && is_error(
            e,
            "ios_frida_root_required"@,
            "Starting the iOS instrumentation server requires a verified uid=0 SSH session"@,
        )),
{
    match remote_uid {
        Some(0) => Ok(()),
        _ => Err(
            ApiError::new(
                "ios_frida_root_required",
                "Starting the iOS instrumentation server requires a verified uid=0 SSH session",
            ),
        ),
    }
}

/// The server to start is the one uploaded through this session.
pub fn uploaded_server_path(upload: Option<String>) -> (r: Result<String, ApiError>)
    ensures
        match upload {
            Some(p) => r matches Ok(s) && s@ == p@,
            None => r matches Err(e) && is_error(
                e,
                "ios_frida_server_not_uploaded"@,
                "Upload a server binary through this SSH session before starting it"@,
            ),
        },
{
    match upload {
        Some(p) => Ok(p),
        None => Err(
            ApiError::new(
                "ios_frida_server_not_uploaded",
                "Upload a server binary through this SSH session before starting it",
            ),
        ),
    }
}

/// The device port of the server: 27042 unless given, never 0.
pub fn server_device_port(requested: Option<u16>) -> (r: Result<u16, ApiError>)
    ensures
        ({
            let p = match requested {
                Some(p) => p,
                None => DEFAULT_FRIDA_PORT,
            };
            &&& p != 0 ==> r == Ok::<u16, ApiError>(p)
            &&& p == 0 ==> (r matches Err(e) && is_error(
                e,
                "invalid_ios_frida_port"@,
                "The device port must be between 1 and 65535"@,
            ))
        }),
{
    let p = match requested {
        Some(p) => p,
        None => DEFAULT_FRIDA_PORT,
    };
    if p == 0 {
        return Err(ApiError::new("invalid_ios_frida_port", "The device port must be between 1 and 65535"));
    }
    Ok(p)
}

/// A host port asked for explicitly must not be 0 (0 means "choose one"
/// only when no port is given).
pub fn check_requested_host_port(requested: Option<u16>) -> (r: Result<(), ApiError>)
    ensures
        requested == Some(0u16) ==> (r matches Err(e) && is_error(
            e,
            "invalid_ios_frida_port"@,
            "The host port must be between 1 and 65535"@,
        )),
        requested != Some(0u16) ==> r is Ok,
{
    if requested == Some(0u16) {
        return Err(ApiError::new("invalid_ios_frida_port", "The host port must be between 1 and 65535"));
    }
    Ok(())
}

/// The log file of a server, next to its binary.
pub fn server_log_path(connection: &IosSshConnection, remote_path: &str) -> (r: Result<String, ApiError>)
    ensures
        match managed_path_check(*connection, remote_path@ + ".log"@) {
            Ok(()) => r matches Ok(s) && s@ == remote_path@ + ".log"@,
            Err((code, message)) => r matches Err(e) && is_error(e, code, message),
        },
{
    let log = text::concat_strs(remote_path, ".log");
    match validate_managed_remote_path(connection, log.as_str()) {
        Ok(()) => Ok(log),
        Err(e) => Err(e),
    }
}

/// The device command that starts the server in the background, bound to
/// the device loopback only, and prints its PID when it is still alive a
/// second later (else its log, and exit status 75).
pub open spec fn launch_cmd(remote_path: Seq<char>, log_path: Seq<char>, device_port: u16) -> Seq<char> {
    let dir = match text::rsplit_once(remote_path, seq!['/']) {
        Some((parent, _)) => parent,
        None => seq!['/'],
    };
    let d = validation::quote(dir);
    let b = validation::quote(remote_path);
    let l = validation::quote(log_path);
    "if [ -L "@ + d + " ] || ! cd "@ + d + " || [ \"$(pwd -P)\" != "@ + d
        + " ]; then exit 71; fi; if [ -L "@ + b + " ] || [ ! -f "@ + b
        + " ]; then exit 72; fi; chmod 700 "@ + b + " && rm -f "@ + l + "; nohup "@ + b
        + " -l 127.0.0.1:"@ + text::decimal(device_port as nat) + " >"@ + l
        + " 2>&1 </dev/null & mobius_pid=$!; sleep 1; if kill -0 \"$mobius_pid\" 2>/dev/null; then printf 'MOBIUS_IOS_SERVICE_PID:%s\\n' \"$mobius_pid\"; else cat "@
        + l + " 2>/dev/null; exit 75; fi"@
}

pub fn launch_command(remote_path: &str, log_path: &str, device_port: u16) -> (r: String)
    ensures
        r@ == launch_cmd(remote_path@, log_path@, device_port),
{
    let cs = text::chars_of(remote_path);
    let slash: Vec<char> = vec!['/'];
    assert(slash@ =~= seq!['/']);
    let dir = match text::rsplit_once_exec(&cs, &slash) {
        Some((parent, _)) => parent,
        None => slash,
    };
    let d = validation::quote_chars(&dir);
    let b = validation::quote_remote(remote_path);
    let l = validation::quote_remote(log_path);
    let bs = b.as_str();
    let ls = l.as_str();
    let mut out = text::chars_of("if [ -L ");
    text::append(&mut out, &d);
    text::append_str(&mut out, " ] || ! cd ");
    text::append(&mut out, &d);
    text::append_str(&mut out, " || [ \"$(pwd -P)\" != ");
    text::append(&mut out, &d);
    text::append_str(&mut out, " ]; then exit 71; fi; if [ -L ");
    text::append_str(&mut out, bs);
    text::append_str(&mut out, " ] || [ ! -f ");
    text::append_str(&mut out, bs);
    text::append_str(&mut out, " ]; then exit 72; fi; chmod 700 ");
    text::append_str(&mut out, bs);
    text::append_str(&mut out, " && rm -f ");
    text::append_str(&mut out, ls);
    text::append_str(&mut out, "; nohup ");
    text::append_str(&mut out, bs);
    text::append_str(&mut out, " -l 127.0.0.1:");
    text::append(&mut out, &text::decimal_exec(device_port as u64));
    text::append_str(&mut out, " >");
    text::append_str(&mut out, ls);
    text::append_str(
        &mut out,
        " 2>&1 </dev/null & mobius_pid=$!; sleep 1; if kill -0 \"$mobius_pid\" 2>/dev/null; then printf 'MOBIUS_IOS_SERVICE_PID:%s\\n' \"$mobius_pid\"; else cat ",
    );
    text::append_str(&mut out, ls);
    text::append_str(&mut out, " 2>/dev/null; exit 75; fi");
    assert(out@ =~= launch_cmd(remote_path@, log_path@, device_port));
    text::string_of(&out)
}

/// The PID printed after the marker: a number above 1.
pub open spec fn started_pid(stdout: Seq<char>) -> Option<nat> {
    match text::first_stripped(text::trimmed_lines(stdout), "MOBIUS_IOS_SERVICE_PID:"@) {
        Some(v) => match text::parse_uint(v, u32::MAX as nat) {
            Some(n) => if n > 1 {
                Some(n)
            } else {
                None
            },
            None => None,
        },
        None => None,
    }
}

pub fn parse_started_pid(stdout: &str) -> (r: Result<u32, ApiError>)
    ensures
        match started_pid(stdout@) {
            Some(n) => r == Ok::<u32, ApiError>(n as u32),
            None => r matches Err(e) && is_error(
                e,
                "ios_frida_invalid_pid"@,
                "The device did not return a valid managed server PID"@,
            ),
        },
{
    let ls = text::trimmed_lines_of(stdout);
    let parsed = match text::first_stripped_exec(&ls, "MOBIUS_IOS_SERVICE_PID:") {
        Some(v) => text::parse_uint_exec(&v, 0xffff_ffff),
        None => None,
    };
    match parsed {
        Some(n) => if n > 1 {
            Ok(n as u32)
        } else {
            Err(ApiError::new("ios_frida_invalid_pid", "The device did not return a valid managed server PID"))
        },
        None => Err(ApiError::new("ios_frida_invalid_pid", "The device did not return a valid managed server PID")),
    }
}

/// The device command that prints the command line of a process.
pub fn process_check_command(pid: u32) -> (r: String)
    ensures
        r@ == "mobius_command=$(ps -p "@ + text::decimal(pid as nat)
            + " -o command= 2>/dev/null || true); printf 'MOBIUS_IOS_SERVICE_COMMAND:%s\\n' \"$mobius_command\""@,
{
    let mut out = text::chars_of("mobius_command=$(ps -p ");
    text::append(&mut out, &text::decimal_exec(pid as u64));
    text::append_str(
        &mut out,
        " -o command= 2>/dev/null || true); printf 'MOBIUS_IOS_SERVICE_COMMAND:%s\\n' \"$mobius_command\"",
    );
    text::string_of(&out)
}

/// The printed command line is the managed binary, alone or followed by
/// whitespace and its arguments.
pub open spec fn process_is_server(stdout: Seq<char>, remote_path: Seq<char>) -> bool {
    let actual = match text::first_stripped(text::trimmed_lines(stdout), "MOBIUS_IOS_SERVICE_COMMAND:"@) {
        Some(v) => v,
        None => Seq::empty(),
    };
    actual == remote_path || match text::strip_prefix(actual, remote_path) {
        Some(rest) => rest.len() > 0 && text::is_ws(rest[0]),
        None => false,
    }
}

pub fn remote_process_matches(stdout: &str, remote_path: &str) -> (r: bool)
    ensures
        r == process_is_server(stdout@, remote_path@),
{
    let ls = text::trimmed_lines_of(stdout);
    let actual = match text::first_stripped_exec(&ls, "MOBIUS_IOS_SERVICE_COMMAND:") {
        Some(v) => v,
        None => Vec::new(),
    };
    let path = text::chars_of(remote_path);
    if text::seq_eq(&actual, &path) {
        return true;
    }
    match text::strip_prefix_str(&actual, remote_path) {
        Some(rest) => rest.len() > 0 && text::is_ws_exec(rest[0]),
        None => false,
    }
}

/// The managed process was reported under another identity: nothing was
/// signalled and it stays recorded.
pub fn identity_mismatch_error() -> (r: ApiError)
    ensures
        is_error(
            r,
            "ios_frida_identity_mismatch"@,
            "The returned PID did not match the uploaded managed binary; no signal was sent and the resource remains recorded for safe cleanup"@,
        ),
{
    ApiError::new(
        "ios_frida_identity_mismatch",
        "The returned PID did not match the uploaded managed binary; no signal was sent and the resource remains recorded for safe cleanup",
    )
}

/// The arguments of the `ssh` process that forwards a host loopback port
/// to the server's device loopback port.
pub fn local_forward_args(connection: &IosSshConnection, host_port: u16, device_port: u16) -> (r: Vec<String>)
    ensures
        text::string_views(r@) == ios_ssh::ssh_args(*connection) + seq![
            "-N"@,
            "-o"@,
            "ExitOnForwardFailure=yes"@,
            "-o"@,
            "GatewayPorts=no"@,
            "-L"@,
            "127.0.0.1:"@ + text::decimal(host_port as nat) + ":127.0.0.1:"@ + text::decimal(
                device_port as nat,
            ),
            connection.username@ + seq!['@'] + connection.ssh_host@,
        ],
{
    let mut args = ios_ssh::ssh_base_args(connection);
    let ghost base = text::string_views(args@);
    text::push_str(&mut args, "-N");
    text::push_str(&mut args, "-o");
    text::push_str(&mut args, "ExitOnForwardFailure=yes");
    text::push_str(&mut args, "-o");
    text::push_str(&mut args, "GatewayPorts=no");
    text::push_str(&mut args, "-L");
    let mut f = text::chars_of("127.0.0.1:");
    text::append(&mut f, &text::decimal_exec(host_port as u64));
    text::append_str(&mut f, ":127.0.0.1:");
    text::append(&mut f, &text::decimal_exec(device_port as u64));
    text::push_string(&mut args, text::string_of(&f));
    text::push_string(&mut args, ios_ssh::ssh_target(connection));
    assert(text::string_views(args@) =~= base + seq![
        "-N"@,
        "-o"@,
        "ExitOnForwardFailure=yes"@,
        "-o"@,
        "GatewayPorts=no"@,
        "-L"@,
        "127.0.0.1:"@ + text::decimal(host_port as nat) + ":127.0.0.1:"@ + text::decimal(
            device_port as nat,
        ),
        connection.username@ + seq!['@'] + connection.ssh_host@,
    ]);
    args
}

/// The error of a start whose forward failed and whose server could not be
/// stopped either.
pub fn rollback_incomplete_error(primary: &ApiError, rollback: &ApiError) -> (r: ApiError)
    ensures
        is_error(
            r,
            "ios_frida_rollback_incomplete"@,
            "Managed SSH forward failed ("@ + primary.message@
                + "), and the started server could not be stopped ("@ + rollback.message@
                + "). It remains recorded for explicit cleanup."@,
        ),
{
    let mut m = text::chars_of("Managed SSH forward failed (");
    text::append_str(&mut m, primary.message.as_str());
    text::append_str(&mut m, "), and the started server could not be stopped (");
    text::append_str(&mut m, rollback.message.as_str());
    text::append_str(&mut m, "). It remains recorded for explicit cleanup.");
    ApiError::with_message("ios_frida_rollback_incomplete", text::string_of(&m))
}

/// The result of a started server.
pub fn start_result(
    session_id: String,
    remote_path: String,
    pid: u32,
    device_port: u16,
    host_port: u16,
    tunnel_pid: u32,
) -> (r: IosFridaServerResult)
    ensures
        r.success && r.active,
        r.message@ == "iOS instrumentation server is available at 127.0.0.1:"@ + text::decimal(
            host_port as nat,
        ),
        r.session_id@ == session_id@,
        r.remote_path@ == remote_path@,
        r.pid == Some(pid),
        text::opt_view(r.listen_address) == Some("127.0.0.1"@),
        r.device_port == Some(device_port),
        r.host_port == Some(host_port),
        r.tunnel_pid == Some(tunnel_pid),
        r.tunnel_active == Some(true),
{
    let mut m = text::chars_of("iOS instrumentation server is available at 127.0.0.1:");
    text::append(&mut m, &text::decimal_exec(host_port as u64));
    IosFridaServerResult {
        success: true,
        message: text::string_of(&m),
        session_id,
        active: true,
        remote_path,
        pid: Some(pid),
        listen_address: Some(text::copy_str("127.0.0.1")),
        device_port: Some(device_port),
        host_port: Some(host_port),
        tunnel_pid: Some(tunnel_pid),
        tunnel_active: Some(true),
    }
}


// ---------------------------------------------------------------------------
// Stopping
// ---------------------------------------------------------------------------

/// The signals of the stop sequence.
#[derive(Debug, Clone, Copy, PartialEq, Eq, Structural)]
pub enum ServerSignal {
    Terminate,
    Kill,
}

/// `kill -TERM <pid>` or `kill -KILL <pid>`.
pub fn signal_command(pid: u32, signal: ServerSignal) -> (r: String)
    ensures
        r@ == "kill -"@ + (match signal {
            ServerSignal::Terminate => "TERM"@,
            ServerSignal::Kill => "KILL"@,
        }) + seq![' '] + text::decimal(pid as nat),
{
    let mut out = text::chars_of("kill -");
    text::append_str(
        &mut out,
        match signal {
            ServerSignal::Terminate => "TERM",
            ServerSignal::Kill => "KILL",
        },
    );
    out.push(' ');
    text::append(&mut out, &text::decimal_exec(pid as u64));
    text::string_of(&out)
}

/// Where the stop sequence is: before anything, after SIGTERM having
/// polled `n` times, or after SIGKILL.
#[derive(Debug, Clone, Copy, PartialEq, Eq, Structural)]
pub enum StopPhase {
    Initial,
    Polling(usize),
    AfterKill,
}

/// What to do next: nothing more, send a signal (then wait 100 ms and check
/// again in the given phase), or wait 100 ms and check again.
#[derive(Debug, Clone, Copy, PartialEq, Eq, Structural)]
pub enum StopAction {
    Done,
    Signal(ServerSignal, StopPhase),
    Wait(StopPhase),
}

/// One decision of the stop sequence, given whether the managed process
/// (by PID and command line) is still running: a process that is not the
/// managed one is never signalled; SIGTERM comes first, with 15 checks
/// 100 ms apart, then SIGKILL; a process alive after SIGKILL is an error.
pub open spec fn stop_next(phase: StopPhase, running: bool) -> Result<StopAction, Seq<char>> {
    if !running {
        Ok(StopAction::Done)
    } else {
        match phase {
            StopPhase::Initial => Ok(StopAction::Signal(ServerSignal::Terminate, StopPhase::Polling(0))),
            StopPhase::Polling(n) => if n + 1 < PROCESS_STOP_ATTEMPTS {
                Ok(StopAction::Wait(StopPhase::Polling((n + 1) as usize)))
            } else {
                Ok(StopAction::Signal(ServerSignal::Kill, StopPhase::AfterKill))
            },
            StopPhase::AfterKill => Err("The managed iOS server remained alive after SIGKILL"@),
        }
    }
}

pub fn stop_step(phase: StopPhase, running: bool) -> (r: Result<StopAction, ApiError>)
    requires
        phase matches StopPhase::Polling(n) ==> n < PROCESS_STOP_ATTEMPTS,
    ensures
        match stop_next(phase, running) {
            Ok(a) => r == Ok::<StopAction, ApiError>(a),
            Err(m) => r matches Err(e) && is_error(e, "ios_frida_stop_failed"@, m),
        },
        r matches Ok(StopAction::Wait(StopPhase::Polling(k))) ==> k < PROCESS_STOP_ATTEMPTS,
{
    if !running {
        return Ok(StopAction::Done);
    }
    match phase {
        StopPhase::Initial => Ok(StopAction::Signal(ServerSignal::Terminate, StopPhase::Polling(0))),
        StopPhase::Polling(n) => if n + 1 < PROCESS_STOP_ATTEMPTS {
            Ok(StopAction::Wait(StopPhase::Polling(n + 1)))
        } else {
            Ok(StopAction::Signal(ServerSignal::Kill, StopPhase::AfterKill))
        },
        StopPhase::AfterKill => Err(
            ApiError::new("ios_frida_stop_failed", "The managed iOS server remained alive after SIGKILL"),
        ),
    }
}

/// Each step of the stop sequence moves forward: the number of remaining
/// decisions (at most 17 from the start) strictly decreases, so the
/// sequence always ends.
pub open spec fn stop_rank(phase: StopPhase) -> int {
    match phase {
        StopPhase::Initial => PROCESS_STOP_ATTEMPTS + 2,
        StopPhase::Polling(n) => PROCESS_STOP_ATTEMPTS + 1 - n,
        StopPhase::AfterKill => 1,
    }
}

pub proof fn lemma_stop_sequence_ends(phase: StopPhase, running: bool)
    requires
        phase matches StopPhase::Polling(n) ==> n < PROCESS_STOP_ATTEMPTS,
    ensures
        match stop_next(phase, running) {
            Ok(StopAction::Signal(_, next)) => stop_rank(next) < stop_rank(phase) && stop_rank(next) >= 1,
            Ok(StopAction::Wait(next)) => stop_rank(next) < stop_rank(phase) && stop_rank(next) >= 1,
            _ => true,
        },
{
}

/// The directory and files of one removal: the runtime directory and the
/// names of direct children of it, or the error of the first path that is
/// not one.
pub open spec fn removal_names(c: IosSshConnection, paths: Seq<Seq<char>>) -> Result<Seq<Seq<char>>, (Seq<char>, Seq<char>)>
    decreases paths.len(),
{
    if paths.len() == 0 {
        Ok(Seq::empty())
    } else {
        match removal_names(c, paths.drop_last()) {
            Err(e) => Err(e),
            Ok(names) => {
                let p = paths.last();
                match managed_path_check(c, p) {
                    Err(e) => Err(e),
                    Ok(()) => match text::rsplit_once(p, seq!['/']) {
                        None => Err(
                            ("unsafe_ios_server_path"@, "The managed remote path has no parent directory"@),
                        ),
                        Some((parent, _)) => if Some(parent) != runtime_dir(c) {
                            Err(
                                (
                                    "unsafe_ios_server_path"@,
                                    "Cleanup is limited to direct children of Mobius's private runtime directory"@,
                                ),
                            )
                        } else {
                            match managed_file_name(p) {
                                None => Err(
                                    (
                                        "unsafe_ios_server_path"@,
                                        "The generated managed filename is invalid"@,
                                    ),
                                ),
                                Some(n) => Ok(names.push(n)),
                            }
                        },
                    },
                }
            },
        }
    }
}

proof fn lemma_removal_err_prefix(c: IosSshConnection, ps: Seq<Seq<char>>, k: int, n: int)
    requires
        0 <= k <= n <= ps.len(),
        removal_names(c, ps.take(k)) is Err,
    ensures
        removal_names(c, ps.take(n)) == removal_names(c, ps.take(k)),
    decreases n - k,
{
    if n > k {
        lemma_removal_err_prefix(c, ps, k, n - 1);
        assert(ps.take(n).drop_last() =~= ps.take(n - 1));
    }
}

pub open spec fn removal_cmd(directory: Seq<char>, names: Seq<Seq<char>>) -> Seq<char> {
    let d = validation::quote(directory);
    let targets = text::join(names.map_values(|n: Seq<char>| validation::quote(seq!['.', '/'] + n)), seq![' ']);
    "if [ ! -e "@ + d + " ]; then exit 0; fi; if [ -L "@ + d + " ] || ! cd "@ + d
        + " || [ \"$(pwd -P)\" != "@ + d + " ]; then exit 74; fi; rm -f "@ + targets + "; cd /; rmdir "@
        + d + " 2>/dev/null || true"@
}

/// The device command that removes managed files, each a direct child of
/// the runtime directory, and then the directory when it is empty.
pub fn removal_command(connection: &IosSshConnection, paths: &[String]) -> (r: Result<String, ApiError>)
    ensures
        match runtime_dir(*connection) {
            None => r matches Err(e) && is_error(e, no_runtime_root().0, no_runtime_root().1),
            Some(d) => match managed_path_check(*connection, d) {
                Err((code, message)) => r matches Err(e) && is_error(e, code, message),
                Ok(()) => match removal_names(*connection, text::string_views(paths@)) {
                    Ok(names) => r matches Ok(s) && s@ == removal_cmd(d, names),
                    Err((code, message)) => r matches Err(e) && is_error(e, code, message),
                },
            },
        },
{
    let runtime = match managed_runtime_directory(connection) {
        Some(d) => d,
        None => {
            return Err(
                ApiError::new(
                    "invalid_allowed_roots",
                    "The SSH session has no allowed root for its managed runtime directory",
                ),
            );
        },
    };
    match validate_managed_remote_path(connection, runtime.as_str()) {
        Ok(()) => {},
        Err(e) => {
            return Err(e);
        },
    }
    let ghost ps = text::string_views(paths@);
    let slash: Vec<char> = vec!['/'];
    assert(slash@ =~= seq!['/']);
    let mut quoted: Vec<Vec<char>> = Vec::new();
    let mut names: Vec<String> = Vec::new();
    let mut i: usize = 0;
    assert(ps.take(0) =~= Seq::<Seq<char>>::empty());
    assert(text::string_views(names@) =~= Seq::<Seq<char>>::empty());
    assert(text::views(quoted@) =~= Seq::<Seq<char>>::empty());
    while i < paths.len()
        invariant
            i <= paths@.len(),
            ps == text::string_views(paths@),
            slash@ == seq!['/'],
            runtime_dir(*connection) == Some(runtime@),
            managed_path_check(*connection, runtime@) is Ok,
            removal_names(*connection, ps.take(i as int)) == Ok::<Seq<Seq<char>>, (Seq<char>, Seq<char>)>(
                text::string_views(names@),
            ),
            text::views(quoted@) == text::string_views(names@).map_values(
                |n: Seq<char>| validation::quote(seq!['.', '/'] + n),
            ),
        decreases paths@.len() - i,
    {
        assert(ps.take(i + 1).drop_last() =~= ps.take(i as int));
        assert(ps.take(i + 1).last() == paths@[i as int]@);
        let p = paths[i].as_str();
        match validate_managed_remote_path(connection, p) {
            Ok(()) => {},
            Err(e) => {
                proof {
                    lemma_removal_err_prefix(*connection, ps, i + 1, ps.len() as int);
                    assert(ps.take(ps.len() as int) =~= ps);
                }
                return Err(e);
            },
        }
        let pc = text::chars_of(p);
        let parent = match text::rsplit_once_exec(&pc, &slash) {
            Some((parent, _)) => parent,
            None => {
                proof {
                    lemma_removal_err_prefix(*connection, ps, i + 1, ps.len() as int);
                    assert(ps.take(ps.len() as int) =~= ps);
                }
                return Err(
                    ApiError::new("unsafe_ios_server_path", "The managed remote path has no parent directory"),
                );
            },
        };
        if !text::eq_str(&parent, runtime.as_str()) {
            proof {
                lemma_removal_err_prefix(*connection, ps, i + 1, ps.len() as int);
                assert(ps.take(ps.len() as int) =~= ps);
            }
            return Err(
                ApiError::new(
                    "unsafe_ios_server_path",
                    "Cleanup is limited to direct children of Mobius's private runtime directory",
                ),
            );
        }
        let name = match remote_file_name(p) {
            Ok(n) => n,
            Err(e) => {
                proof {
                    lemma_removal_err_prefix(*connection, ps, i + 1, ps.len() as int);
                    assert(ps.take(ps.len() as int) =~= ps);
                }
                return Err(e);
            },
        };
        let mut dotted: Vec<char> = vec!['.', '/'];
        text::append_str(&mut dotted, name.as_str());
        assert(dotted@ =~= seq!['.', '/'] + name@);
        let q = validation::quote_chars(&dotted);
        let ghost qbefore = text::views(quoted@);
        let ghost nbefore = text::string_views(names@);
        quoted.push(q);
        text::push_string(&mut names, name);
        assert(text::views(quoted@) =~= qbefore.push(q@));
        assert(text::views(quoted@) =~= text::string_views(names@).map_values(
            |n: Seq<char>| validation::quote(seq!['.', '/'] + n),
        ));
        i = i + 1;
    }
    assert(ps.take(paths@.len() as int) =~= ps);
    let space: Vec<char> = vec![' '];
    assert(space@ =~= seq![' ']);
    let targets = text::join_exec(&quoted, &space);
    let d = validation::quote_remote(runtime.as_str());
    let ds = d.as_str();
    let mut out = text::chars_of("if [ ! -e ");
    text::append_str(&mut out, ds);
    text::append_str(&mut out, " ]; then exit 0; fi; if [ -L ");
    text::append_str(&mut out, ds);
    text::append_str(&mut out, " ] || ! cd ");
    text::append_str(&mut out, ds);
    text::append_str(&mut out, " || [ \"$(pwd -P)\" != ");
    text::append_str(&mut out, ds);
    text::append_str(&mut out, " ]; then exit 74; fi; rm -f ");
    text::append(&mut out, &targets);
    text::append_str(&mut out, "; cd /; rmdir ");
    text::append_str(&mut out, ds);
    text::append_str(&mut out, " 2>/dev/null || true");
    assert(out@ =~= removal_cmd(runtime@, text::string_views(names@)));
    Ok(text::string_of(&out))
}

/// The path to clean up when stopping: the running server's, else the
/// uploaded one's.
pub fn remembered_server_path(process_path: Option<String>, upload_path: Option<String>) -> (r: Result<
    String,
    ApiError,
>)
    ensures
        match (process_path, upload_path) {
            (Some(p), _) => r matches Ok(s) && s@ == p@,
            (None, Some(u)) => r matches Ok(s) && s@ == u@,
            (None, None) => r matches Err(e) && is_error(
                e,
                "ios_frida_not_managed"@,
                "No iOS server uploaded by this Mobius SSH session is recorded"@,
            ),
        },
{
    match (process_path, upload_path) {
        (Some(p), _) => Ok(p),
        (None, Some(u)) => Ok(u),
        (None, None) => Err(
            ApiError::new("ios_frida_not_managed", "No iOS server uploaded by this Mobius SSH session is recorded"),
        ),
    }
}

/// A warning of the teardown that precedes the end of a session.
pub fn cleanup_warning(what: &str, error: &ApiError) -> (r: String)
    ensures
        r@ == what@ + " cleanup failed: "@ + error.message@,
{
    let mut out = text::chars_of(what);
    text::append_str(&mut out, " cleanup failed: ");
    text::append_str(&mut out, error.message.as_str());
    text::string_of(&out)
}

/// The result of a stopped server (and removed binary).
pub fn stop_result(
    session_id: String,
    remote_path: String,
    pid: Option<u32>,
    device_port: Option<u16>,
    host_port: Option<u16>,
    tunnel_pid: Option<u32>,
) -> (r: IosFridaServerResult)
    ensures
        r.success && !r.active,
        r.message@ == "Mobius-managed iOS server, binary, and local tunnel were stopped and removed"@,
        r.session_id@ == session_id@,
        r.remote_path@ == remote_path@,
        r.pid == pid,
        text::opt_view(r.listen_address) == Some("127.0.0.1"@),
        r.device_port == device_port,
        r.host_port == host_port,
        r.tunnel_pid == tunnel_pid,
        r.tunnel_active == Some(false),
{
    IosFridaServerResult {
        success: true,
        message: text::copy_str("Mobius-managed iOS server, binary, and local tunnel were stopped and removed"),
        session_id,
        active: false,
        remote_path,
        pid,
        listen_address: Some(text::copy_str("127.0.0.1")),
        device_port,
        host_port,
        tunnel_pid,
        tunnel_active: Some(false),
    }
}

} // verus!
