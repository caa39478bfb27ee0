//! SSH sessions to jailbroken iOS devices: credential and path validation,
//! the allowed-root boundary, the fixed `ssh`/`scp` argument lists, and the
//! parsing of the markers that the fixed remote scripts print.
use crate::error::{is_error, ApiError};
use crate::ip::{v4_link_local, v4_loopback, v4_private, v6_loopback, IpAddress};
use crate::models::{
    IosSshAuthMode, IosSshConnectionResult, IosSshSession, IosSshTunnelStatus, SecretString,
};
use crate::text;
use crate::validation;
use vstd::prelude::*;

verus! {

pub const DEFAULT_SSH_PORT: u16 = 22;

pub const MAX_ALLOWED_ROOTS: usize = 32;

pub const MAX_SESSIONS: usize = 16;

/// How the session authenticates.
#[derive(Clone)]
pub enum IosSshAuthentication {
    Password(SecretString),
    /// The canonical path of the private key file.
    PrivateKey(String),
}

pub open spec fn auth_mode_of(a: IosSshAuthentication) -> IosSshAuthMode {
    match a {
        IosSshAuthentication::Password(_) => IosSshAuthMode::Password,
        IosSshAuthentication::PrivateKey(_) => IosSshAuthMode::PrivateKey,
    }
}

impl IosSshAuthentication {
    pub fn mode(&self) -> (m: IosSshAuthMode)
        ensures
            m == auth_mode_of(*self),
    {
        match self {
            IosSshAuthentication::Password(_) => IosSshAuthMode::Password,
            IosSshAuthentication::PrivateKey(_) => IosSshAuthMode::PrivateKey,
        }
    }
}

/// An established SSH connection.
#[derive(Clone)]
pub struct IosSshConnection {
    pub ssh_host: String,
    pub ssh_port: u16,
    pub device_port: Option<u16>,
    pub username: String,
    pub authentication: IosSshAuthentication,
    pub known_hosts_path: String,
    pub host_key_alias: Option<String>,
    /// Stable user-facing roots such as `/var/mobile`.
    pub configured_roots: Vec<String>,
    /// Physical roots returned by `pwd -P`, used for boundary enforcement.
    pub allowed_roots: Vec<String>,
    pub server_system: Option<String>,
    pub remote_uid: Option<u32>,
}

// ---------------------------------------------------------------------------
// Credentials and endpoints
// ---------------------------------------------------------------------------

pub open spec fn password_ok(s: Seq<char>) -> bool {
    s.len() > 0 && text::utf8_len(s) <= 1024 && !(exists|i: int|
        0 <= i < s.len() && validation::is_line_break_or_nul(#[trigger] s[i]))
}

fn has_line_break_or_nul(s: &[char]) -> (r: bool)
    ensures
        r == exists|i: int| 0 <= i < s@.len() && validation::is_line_break_or_nul(#[trigger] s@[i]),
{
    let mut i: usize = 0;
    while i < s.len()
        invariant
            i <= s@.len(),
            forall|j: int| 0 <= j < i ==> !validation::is_line_break_or_nul(#[trigger] s@[j]),
        decreases s@.len() - i,
    {
        if s[i] == '\0' || s[i] == '\r' || s[i] == '\n' {
            assert(validation::is_line_break_or_nul(s@[i as int]));
            return true;
        }
        i = i + 1;
    }
    false
}

/// An SSH password has 1 to 1024 bytes and no NUL or line break; the error
/// never repeats the password.
pub fn validate_password(value: &str) -> (r: Result<(), ApiError>)
    ensures
        password_ok(value@) ==> r is Ok,
        !password_ok(value@) ==> (r matches Err(e) && is_error(
            e,
            "invalid_ssh_password"@,
            "The SSH password must be 1 to 1024 characters and cannot contain line breaks"@,
        )),
{
    let cs = text::chars_of(value);
    let n = text::utf8_len_capped(&cs, 1025);
    if cs.len() == 0 || n > 1024 || has_line_break_or_nul(&cs) {
        return Err(
            ApiError::new(
                "invalid_ssh_password",
                "The SSH password must be 1 to 1024 characters and cannot contain line breaks",
            ),
        );
    }
    Ok(())
}

pub open spec fn username_char(c: char) -> bool {
    text::is_alnum(c) || c == '_' || c == '-' || c == '.'
}

pub open spec fn username_ok(s: Seq<char>) -> bool {
    s.len() > 0 && text::utf8_len(s) <= 64 && s[0] != '-' && forall|i: int|
        0 <= i < s.len() ==> username_char(#[trigger] s[i])
}

fn all_username_chars(s: &[char]) -> (r: bool)
    ensures
        r == forall|i: int| 0 <= i < s@.len() ==> username_char(#[trigger] s@[i]),
{
    let mut i: usize = 0;
    while i < s.len()
        invariant
            i <= s@.len(),
            forall|j: int| 0 <= j < i ==> username_char(#[trigger] s@[j]),
        decreases s@.len() - i,
    {
        let c = s[i];
        if !(text::is_alnum_exec(c) || c == '_' || c == '-' || c == '.') {
            assert(!username_char(s@[i as int]));
            return false;
        }
        i = i + 1;
    }
    true
}

/// An SSH user name: 1 to 64 ASCII letters, digits, `_`, `-` or `.`, not
/// starting with `-`.
pub fn validate_username(value: &str) -> (r: Result<&str, ApiError>)
    ensures
        username_ok(value@) ==> r == Ok::<&str, ApiError>(value),
        !username_ok(value@) ==> (r matches Err(e) && is_error(
            e,
            "invalid_ssh_username"@,
            "SSH username contains unsupported characters"@,
        )),
{
    let cs = text::chars_of(value);
    let n = text::utf8_len_capped(&cs, 65);
    if cs.len() == 0 || n > 64 || cs[0] == '-' || !all_username_chars(&cs) {
        return Err(ApiError::new("invalid_ssh_username", "SSH username contains unsupported characters"));
    }
    Ok(value)
}

/// A LAN SSH host is a private, loopback or link-local IPv4 address, or the
/// IPv6 loopback, a unique-local (fc00::/7) or a link-local (fe80::/10)
/// address.
pub open spec fn lan_host_allowed(ip: IpAddress) -> bool {
    match ip {
        IpAddress::V4(a, b, _, _) => v4_private(a, b) || v4_loopback(a) || v4_link_local(a, b),
        IpAddress::V6(first, _, _, _, _, _, _, _) => v6_loopback(ip) || (0xfc00 <= first
            && first <= 0xfdff) || (0xfe80 <= first && first <= 0xfebf),
    }
}

/// Checks the address of a LAN SSH host; `parsed` is the host text parsed
/// as an IP address, `None` when it is not one.
pub fn validate_lan_host(parsed: Option<IpAddress>) -> (r: Result<IpAddress, ApiError>)
    ensures
        match parsed {
            None => r matches Err(e) && is_error(
                e,
                "invalid_ssh_host"@,
                "LAN SSH host must be a private or link-local IP address"@,
            ),
            Some(ip) => if lan_host_allowed(ip) {
                r == Ok::<IpAddress, ApiError>(ip)
            } else {
                r matches Err(e) && is_error(
                    e,
                    "non_local_ssh_host"@,
                    "LAN SSH is limited to private, loopback, or link-local addresses"@,
                )
            },
        },
{
    let ip = match parsed {
        Some(ip) => ip,
        None => {
            return Err(
                ApiError::new(
                    "invalid_ssh_host",
                    "LAN SSH host must be a private or link-local IP address",
                ),
            );
        },
    };
    let allowed = match ip {
        IpAddress::V4(a, b, _, _) => crate::ip::is_private_v4(a, b) || a == 127 || (a == 169 && b
            == 254),
        IpAddress::V6(first, s1, s2, s3, s4, s5, s6, s7) => (first == 0 && s1 == 0 && s2 == 0 && s3
            == 0 && s4 == 0 && s5 == 0 && s6 == 0 && s7 == 1) || (0xfc00 <= first && first
            <= 0xfdff) || (0xfe80 <= first && first <= 0xfebf),
    };
    if !allowed {
        return Err(
            ApiError::new(
                "non_local_ssh_host",
                "LAN SSH is limited to private, loopback, or link-local addresses",
            ),
        );
    }
    Ok(ip)
}

/// A port number other than 0.
pub fn valid_port(port: u16, label: &str) -> (r: Result<u16, ApiError>)
    ensures
        port != 0 ==> r == Ok::<u16, ApiError>(port),
        port == 0 ==> (r matches Err(e) && is_error(
            e,
            "invalid_ssh_port"@,
            label@ + " port must be between 1 and 65535"@,
        )),
{
    if port == 0 {
        return Err(
            ApiError::with_message(
                "invalid_ssh_port",
                text::concat_strs(label, " port must be between 1 and 65535"),
            ),
        );
    }
    Ok(port)
}

// ---------------------------------------------------------------------------
// Remote paths
// ---------------------------------------------------------------------------

pub open spec fn has_control(s: Seq<char>) -> bool {
    exists|i: int| 0 <= i < s.len() && text::is_control(#[trigger] s[i])
}

fn any_control(s: &[char]) -> (r: bool)
    ensures
        r == has_control(s@),
{
    let mut i: usize = 0;
    while i < s.len()
        invariant
            i <= s@.len(),
            forall|j: int| 0 <= j < i ==> !text::is_control(#[trigger] s@[j]),
        decreases s@.len() - i,
    {
        if text::is_control_exec(s[i]) {
            assert(text::is_control(s@[i as int]));
            return true;
        }
        i = i + 1;
    }
    false
}

/// A remote path checked and without its trailing slashes (`/` stays `/`),
/// or the error code and message.
pub open spec fn normalized_path(s: Seq<char>) -> Result<Seq<char>, (Seq<char>, Seq<char>)> {
    match validation::remote_path_check(s) {
        Err(e) => Err(e),
        Ok(()) => if has_control(s) {
            Err(("invalid_remote_path"@, "Remote paths cannot contain control characters"@))
        } else if text::trim_end_char(s, '/').len() == 0 {
            Ok(seq!['/'])
        } else {
            Ok(text::trim_end_char(s, '/'))
        },
    }
}

pub fn normalize_remote_path(value: &str) -> (r: Result<String, ApiError>)
    ensures
        match normalized_path(value@) {
            Ok(p) => r matches Ok(s) && s@ == p,
            Err((code, message)) => r matches Err(e) && is_error(e, code, message),
        },
{
    let cs = text::chars_of(value);
    match validation::remote_path_chars(&cs) {
        Ok(()) => {},
        Err(e) => {
            return Err(e);
        },
    }
    if any_control(&cs) {
        return Err(ApiError::new("invalid_remote_path", "Remote paths cannot contain control characters"));
    }
    let trimmed = text::trim_end_char_exec(&cs, '/');
    if trimmed.len() == 0 {
        let slash: Vec<char> = vec!['/'];
        assert(slash@ =~= seq!['/']);
        return Ok(text::string_of(&slash));
    }
    Ok(text::string_of(&trimmed))
}

/// `path` is `root` or lies below it (a component boundary follows `root`).
pub open spec fn path_within(path: Seq<char>, root: Seq<char>) -> bool {
    path == root || (text::starts_with(path, root) && path.len() > root.len() && path[root.len() as int]
        == '/')
}

pub fn is_path_within(path: &str, root: &str) -> (r: bool)
    ensures
        r == path_within(path@, root@),
{
    let p = text::chars_of(path);
    let q = text::chars_of(root);
    if text::seq_eq(&p, &q) {
        return true;
    }
    text::starts_with_exec(&p, &q) && p.len() > q.len() && p[q.len()] == '/'
}

/// `path` is accepted by `root`: below it, and not equal to it when
/// `strict` is set.
pub open spec fn root_accepts(path: Seq<char>, root: Seq<char>, strict: bool) -> bool {
    if strict {
        path != root && path_within(path, root)
    } else {
        path_within(path, root)
    }
}

/// Some root of `roots` accepts `path`.
pub open spec fn some_root_accepts(roots: Seq<String>, path: Seq<char>, strict: bool) -> bool {
    exists|i: int| 0 <= i < roots.len() && root_accepts(path, #[trigger] roots[i]@, strict)
}

fn any_root_accepts(roots: &Vec<String>, path: &str, strict: bool) -> (r: bool)
    ensures
        r == some_root_accepts(roots@, path@, strict),
{
    let mut i: usize = 0;
    while i < roots.len()
        invariant
            i <= roots@.len(),
            forall|j: int| 0 <= j < i ==> !root_accepts(path@, #[trigger] roots@[j]@, strict),
        decreases roots@.len() - i,
    {
        let root = roots[i].as_str();
        let within = is_path_within(path, root);
        let accepted = if strict {
            !text::eq_str_str(path, root) && within
        } else {
            within
        };
        if accepted {
            assert(root_accepts(path@, roots@[i as int]@, strict));
            return true;
        }
        i = i + 1;
    }
    false
}

/// `path` lies within a configured (alias) root or a physical allowed root.
pub open spec fn path_allowed(c: IosSshConnection, path: Seq<char>, strict: bool) -> bool {
    some_root_accepts(c.configured_roots@, path, strict) || some_root_accepts(
        c.allowed_roots@,
        path,
        strict,
    )
}

/// Accepts a path within the session's roots; with `strict_descendant`
/// the path must lie strictly below a root.
pub fn require_allowed_path(connection: &IosSshConnection, path: &str, strict_descendant: bool) -> (r:
    Result<(), ApiError>)
    ensures
        path_allowed(*connection, path@, strict_descendant) ==> r is Ok,
        !path_allowed(*connection, path@, strict_descendant) ==> (r matches Err(e) && is_error(
            e,
            "remote_path_outside_allowed_roots"@,
            if strict_descendant {
                "The remote path must be below, and cannot equal, an allowed root"@
            } else {
                "The remote path is outside the configured allowed roots"@
            },
        )),
{
    if any_root_accepts(&connection.configured_roots, path, strict_descendant) || any_root_accepts(
        &connection.allowed_roots,
        path,
        strict_descendant,
    ) {
        return Ok(());
    }
    Err(
        ApiError::new(
            "remote_path_outside_allowed_roots",
            if strict_descendant {
                "The remote path must be below, and cannot equal, an allowed root"
            } else {
                "The remote path is outside the configured allowed roots"
            },
        ),
    )
}

pub open spec fn remote_name_ok(s: Seq<char>) -> bool {
    s.len() > 0 && s != seq!['.'] && s != seq!['.', '.'] && !text::contains(s, seq!['/'])
        && !has_control(s) && text::utf8_len(s) <= 255
}

/// A name of one remote item: not empty, `.` or `..`, without `/` or
/// control characters, at most 255 bytes.
pub fn validate_remote_name(value: &str) -> (r: Result<&str, ApiError>)
    ensures
        remote_name_ok(value@) ==> r == Ok::<&str, ApiError>(value),
        !remote_name_ok(value@) ==> (r matches Err(e) && is_error(
            e,
            "invalid_remote_name"@,
            "Remote item name is invalid"@,
        )),
{
    let cs = text::chars_of(value);
    let dot: Vec<char> = vec!['.'];
    let dots: Vec<char> = vec!['.', '.'];
    let slash: Vec<char> = vec!['/'];
    assert(dot@ =~= seq!['.']);
    assert(dots@ =~= seq!['.', '.']);
    assert(slash@ =~= seq!['/']);
    let n = text::utf8_len_capped(&cs, 256);
    if cs.len() == 0 || text::seq_eq(&cs, &dot) || text::seq_eq(&cs, &dots) || text::contains_exec(
        &cs,
        &slash,
    ) || any_control(&cs) || n > 255 {
        return Err(ApiError::new("invalid_remote_name", "Remote item name is invalid"));
    }
    Ok(value)
}

/// The parent directory and the name of a remote path.
pub open spec fn parent_and_name(s: Seq<char>) -> Result<(Seq<char>, Seq<char>), (Seq<char>, Seq<char>)> {
    match normalized_path(s) {
        Err(e) => Err(e),
        Ok(n) => if n == seq!['/'] {
            Err(
                (
                    "protected_remote_path"@,
                    "The filesystem root cannot be used as a file operation target"@,
                ),
            )
        } else {
            match text::rsplit_once(n, seq!['/']) {
                None => Err(("invalid_remote_path"@, "Remote path does not contain a parent directory"@)),
                Some((parent, name)) => if !remote_name_ok(name) {
                    Err(("invalid_remote_name"@, "Remote item name is invalid"@))
                } else if parent.len() == 0 {
                    Ok((seq!['/'], name))
                } else {
                    Ok((parent, name))
                },
            }
        },
    }
}

pub fn remote_parent_and_name(path: &str) -> (r: Result<(String, String), ApiError>)
    ensures
        match parent_and_name(path@) {
            Ok((parent, name)) => r matches Ok((p, n)) && p@ == parent && n@ == name,
            Err((code, message)) => r matches Err(e) && is_error(e, code, message),
        },
{
    let normalized = match normalize_remote_path(path) {
        Ok(n) => n,
        Err(e) => {
            return Err(e);
        },
    };
    let cs = text::chars_of(normalized.as_str());
    let slash: Vec<char> = vec!['/'];
    assert(slash@ =~= seq!['/']);
    if text::seq_eq(&cs, &slash) {
        return Err(
            ApiError::new(
                "protected_remote_path",
                "The filesystem root cannot be used as a file operation target",
            ),
        );
    }
    let (parent, name) = match text::rsplit_once_exec(&cs, &slash) {
        Some(pair) => pair,
        None => {
            return Err(
                ApiError::new("invalid_remote_path", "Remote path does not contain a parent directory"),
            );
        },
    };
    let name_text = text::string_of(&name);
    match validate_remote_name(name_text.as_str()) {
        Ok(_) => {},
        Err(e) => {
            return Err(e);
        },
    }
    if parent.len() == 0 {
        return Ok((text::string_of(&slash), name_text));
    }
    Ok((text::string_of(&parent), name_text))
}

/// The path of `name` inside `parent`.
pub open spec fn joined_path(parent: Seq<char>, name: Seq<char>) -> Seq<char> {
    if parent == seq!['/'] {
        seq!['/'] + name
    } else {
        text::trim_end_char(parent, '/') + seq!['/'] + name
    }
}

pub fn join_remote_path(parent: &str, name: &str) -> (r: Result<String, ApiError>)
    ensures
        remote_name_ok(name@) ==> (r matches Ok(s) && s@ == joined_path(parent@, name@)),
        !remote_name_ok(name@) ==> (r matches Err(e) && is_error(
            e,
            "invalid_remote_name"@,
            "Remote item name is invalid"@,
        )),
{
    match validate_remote_name(name) {
        Ok(_) => {},
        Err(e) => {
            return Err(e);
        },
    }
    let p = text::chars_of(parent);
    let slash: Vec<char> = vec!['/'];
    assert(slash@ =~= seq!['/']);
    let mut out: Vec<char> = if text::seq_eq(&p, &slash) {
        slash
    } else {
        let mut t = text::trim_end_char_exec(&p, '/');
        t.push('/');
        t
    };
    text::append_str(&mut out, name);
    assert(out@ =~= joined_path(parent@, name@));
    Ok(text::string_of(&out))
}


// ---------------------------------------------------------------------------
// Allowed roots
// ---------------------------------------------------------------------------

/// One configured root, normalized; the filesystem root is refused.
pub open spec fn root_norm(s: Seq<char>) -> Result<Seq<char>, (Seq<char>, Seq<char>)> {
    match normalized_path(s) {
        Err(e) => Err(e),
        Ok(p) => if p == seq!['/'] {
            Err(
                (
                    "unsafe_allowed_root"@,
                    "The filesystem root cannot be used as an allowed file-management root"@,
                ),
            )
        } else {
            Ok(p)
        },
    }
}

/// The configured roots, each normalized, or the error of the first one
/// that is refused.
pub open spec fn roots_norm(vs: Seq<Seq<char>>) -> Result<Seq<Seq<char>>, (Seq<char>, Seq<char>)>
    decreases vs.len(),
{
    if vs.len() == 0 {
        Ok(Seq::empty())
    } else {
        match roots_norm(vs.drop_last()) {
            Err(e) => Err(e),
            Ok(r) => match root_norm(vs.last()) {
                Err(e) => Err(e),
                Ok(p) => Ok(r.push(p)),
            },
        }
    }
}

proof fn lemma_roots_norm_err_prefix(vs: Seq<Seq<char>>, k: int, n: int)
    requires
        0 <= k <= n <= vs.len(),
        roots_norm(vs.take(k)) is Err,
    ensures
        roots_norm(vs.take(n)) == roots_norm(vs.take(k)),
    decreases n - k,
{
    if n > k {
        lemma_roots_norm_err_prefix(vs, k, n - 1);
        assert(vs.take(n).drop_last() =~= vs.take(n - 1));
    }
}

fn is_slash(s: &str) -> (r: bool)
    ensures
        r == (s@ == seq!['/']),
{
    let cs = text::chars_of(s);
    let r = cs.len() == 1 && cs[0] == '/';
    proof {
        if cs@.len() == 1 && cs@[0] == '/' {
            assert(cs@ =~= seq!['/']);
        }
    }
    r
}

/// Between 1 and 32 roots, each a normalized remote path other than `/`.
pub fn validate_allowed_roots(values: &[String]) -> (r: Result<Vec<String>, ApiError>)
    ensures
        (values@.len() == 0 || values@.len() > MAX_ALLOWED_ROOTS) ==> (r matches Err(e) && is_error(
            e,
            "invalid_allowed_roots"@,
            "Configure between 1 and 32 allowed remote roots"@,
        )),
        1 <= values@.len() <= MAX_ALLOWED_ROOTS ==> match roots_norm(text::string_views(values@)) {
            Ok(ps) => r matches Ok(v) && text::string_views(v@) == ps,
            Err((code, message)) => r matches Err(e) && is_error(e, code, message),
        },
{
    if values.len() == 0 || values.len() > MAX_ALLOWED_ROOTS {
        return Err(
            ApiError::new("invalid_allowed_roots", "Configure between 1 and 32 allowed remote roots"),
        );
    }
    let ghost vs = text::string_views(values@);
    let mut out: Vec<String> = Vec::new();
    let mut i: usize = 0;
    assert(vs.take(0) =~= Seq::<Seq<char>>::empty());
    assert(text::string_views(out@) =~= Seq::<Seq<char>>::empty());
    while i < values.len()
        invariant
            i <= values@.len(),
            1 <= values@.len() <= MAX_ALLOWED_ROOTS,
            vs == text::string_views(values@),
            roots_norm(vs.take(i as int)) == Ok::<Seq<Seq<char>>, (Seq<char>, Seq<char>)>(
                text::string_views(out@),
            ),
        decreases values@.len() - i,
    {
        assert(vs.take(i + 1).drop_last() =~= vs.take(i as int));
        assert(vs.take(i + 1).last() == values@[i as int]@);
        let ghost before = out@;
        match normalize_remote_path(values[i].as_str()) {
            Err(e) => {
                proof {
                    lemma_roots_norm_err_prefix(vs, i + 1, vs.len() as int);
                    assert(vs.take(vs.len() as int) =~= vs);
                }
                return Err(e);
            },
            Ok(p) => {
                if is_slash(p.as_str()) {
                    proof {
                        lemma_roots_norm_err_prefix(vs, i + 1, vs.len() as int);
                        assert(vs.take(vs.len() as int) =~= vs);
                    }
                    return Err(
                        ApiError::new(
                            "unsafe_allowed_root",
                            "The filesystem root cannot be used as an allowed file-management root",
                        ),
                    );
                }
                out.push(p);
                assert(text::string_views(out@) =~= text::string_views(before).push(out@.last()@));
            },
        }
        i = i + 1;
    }
    assert(vs.take(values@.len() as int) =~= vs);
    Ok(out)
}

/// Records the physical (canonical) form of a configured root: `/` is
/// refused; a root already recorded is not recorded twice.
pub fn add_canonical_root(roots: &mut Vec<String>, canonical: &str) -> (r: Result<(), ApiError>)
    ensures
        canonical@ == seq!['/'] ==> (r matches Err(e) && is_error(
            e,
            "unsafe_allowed_root"@,
            "The filesystem root cannot be used as an allowed file-management root"@,
        )) && final(roots)@ == old(roots)@,
        canonical@ != seq!['/'] ==> r is Ok && text::string_views(final(roots)@) == (if text::string_views(
            old(roots)@,
        ).contains(canonical@) {
            text::string_views(old(roots)@)
        } else {
            text::string_views(old(roots)@).push(canonical@)
        }),
{
    if is_slash(canonical) {
        return Err(
            ApiError::new(
                "unsafe_allowed_root",
                "The filesystem root cannot be used as an allowed file-management root",
            ),
        );
    }
    let ghost before = text::string_views(roots@);
    let mut i: usize = 0;
    while i < roots.len()
        invariant
            i <= roots@.len(),
            canonical@ != seq!['/'],
            before == text::string_views(roots@),
            forall|j: int| 0 <= j < i ==> (#[trigger] roots@[j])@ != canonical@,
        decreases roots@.len() - i,
    {
        if text::eq_str_str(roots[i].as_str(), canonical) {
            assert(before[i as int] == canonical@);
            return Ok(());
        }
        i = i + 1;
    }
    assert(!before.contains(canonical@)) by {
        if before.contains(canonical@) {
            let k = choose|k: int| 0 <= k < before.len() && before[k] == canonical@;
            assert(roots@[k]@ == canonical@);
        }
    }
    text::push_str(roots, canonical);
    Ok(())
}

/// The `case` patterns that match each physical root and what lies below it.
pub open spec fn root_patterns(roots: Seq<Seq<char>>) -> Seq<Seq<char>>
    decreases roots.len(),
{
    if roots.len() == 0 {
        Seq::empty()
    } else {
        root_patterns(roots.drop_last()) + seq![
            validation::quote(roots.last()),
            validation::quote(roots.last()) + seq!['/', '*'],
        ]
    }
}

/// A device command that runs `action` in `parent` only when the physical
/// directory is an allowed root or lies below one (else it exits 73).
pub open spec fn guarded_command(roots: Seq<Seq<char>>, parent: Seq<char>, action: Seq<char>) -> Seq<char> {
    "cd "@ + validation::quote(parent) + " && mobius_parent=$(pwd -P) && case \"$mobius_parent\" in "@
        + text::join(root_patterns(roots), seq!['|']) + ") "@ + action + " ;; *) exit 73 ;; esac"@
}

pub fn guarded_parent_command(connection: &IosSshConnection, lexical_parent: &str, action: &str) -> (r:
    String)
    ensures
        r@ == guarded_command(text::string_views(connection.allowed_roots@), lexical_parent@, action@),
{
    let roots = &connection.allowed_roots;
    let ghost rs = text::string_views(roots@);
    let mut patterns: Vec<Vec<char>> = Vec::new();
    let mut i: usize = 0;
    assert(rs.take(0) =~= Seq::<Seq<char>>::empty());
    assert(text::views(patterns@) =~= Seq::<Seq<char>>::empty());
    while i < roots.len()
        invariant
            i <= roots@.len(),
            rs == text::string_views(roots@),
            text::views(patterns@) == root_patterns(rs.take(i as int)),
        decreases roots@.len() - i,
    {
        let ghost before = text::views(patterns@);
        assert(rs.take(i + 1).drop_last() =~= rs.take(i as int));
        assert(rs.take(i + 1).last() == roots@[i as int]@);
        let cs = text::chars_of(roots[i].as_str());
        let q = validation::quote_chars(&cs);
        let mut below = text::copy_chars(&q);
        below.push('/');
        below.push('*');
        let ghost qv = q@;
        let ghost bv = below@;
        assert(qv == validation::quote(rs.take(i + 1).last()));
        assert(bv =~= validation::quote(rs.take(i + 1).last()) + seq!['/', '*']);
        patterns.push(q);
        patterns.push(below);
        assert(text::views(patterns@) =~= before + seq![qv, bv]);
        i = i + 1;
        assert(text::views(patterns@) =~= root_patterns(rs.take(i as int)));
    }
    assert(rs.take(roots@.len() as int) =~= rs);
    let bar: Vec<char> = vec!['|'];
    assert(bar@ =~= seq!['|']);
    let joined = text::join_exec(&patterns, &bar);
    let pc = text::chars_of(lexical_parent);
    let qp = validation::quote_chars(&pc);
    let mut out: Vec<char> = Vec::new();
    text::append_str(&mut out, "cd ");
    text::append(&mut out, &qp);
    text::append_str(&mut out, " && mobius_parent=$(pwd -P) && case \"$mobius_parent\" in ");
    text::append(&mut out, &joined);
    text::append_str(&mut out, ") ");
    text::append_str(&mut out, action);
    text::append_str(&mut out, " ;; *) exit 73 ;; esac");
    assert(out@ =~= guarded_command(rs, lexical_parent@, action@));
    text::string_of(&out)
}

/// The action that creates directory `name` in the current directory.
pub fn mkdir_action(name: &str) -> (r: String)
    ensures
        r@ == "mkdir "@ + validation::quote(seq!['.', '/'] + name@),
{
    let mut n: Vec<char> = vec!['.', '/'];
    text::append_str(&mut n, name);
    let q = validation::quote_chars(&n);
    let mut out: Vec<char> = Vec::new();
    text::append_str(&mut out, "mkdir ");
    text::append(&mut out, &q);
    assert(n@ =~= seq!['.', '/'] + name@);
    assert(out@ =~= "mkdir "@ + validation::quote(seq!['.', '/'] + name@));
    text::string_of(&out)
}

/// The action that deletes `name` in the current directory, recursively
/// when asked.
pub fn delete_action(name: &str, recursive: bool) -> (r: String)
    ensures
        r@ == "rm "@ + (if recursive {
            "-rf"@
        } else {
            "-f"@
        }) + seq![' '] + validation::quote(seq!['.', '/'] + name@),
{
    let mut n: Vec<char> = vec!['.', '/'];
    text::append_str(&mut n, name);
    let q = validation::quote_chars(&n);
    let mut out: Vec<char> = Vec::new();
    text::append_str(&mut out, "rm ");
    text::append_str(
        &mut out,
        if recursive {
            "-rf"
        } else {
            "-f"
        },
    );
    out.push(' ');
    text::append(&mut out, &q);
    assert(n@ =~= seq!['.', '/'] + name@);
    assert(out@ =~= "rm "@ + (if recursive {
        "-rf"@
    } else {
        "-f"@
    }) + seq![' '] + validation::quote(seq!['.', '/'] + name@));
    text::string_of(&out)
}

// ---------------------------------------------------------------------------
// Sessions
// ---------------------------------------------------------------------------

pub open spec fn session_id_char(c: char) -> bool {
    text::is_alnum(c) || c == '-'
}

pub open spec fn session_id_ok(s: Seq<char>) -> bool {
    12 <= text::utf8_len(s) <= 96 && forall|i: int| 0 <= i < s.len() ==> session_id_char(#[trigger] s[i])
}

/// A session identifier: 12 to 96 ASCII letters, digits and dashes.
pub fn validate_session_id(value: &str) -> (r: Result<&str, ApiError>)
    ensures
        session_id_ok(value@) ==> r == Ok::<&str, ApiError>(value),
        !session_id_ok(value@) ==> (r matches Err(e) && is_error(
            e,
            "invalid_ios_ssh_session_id"@,
            "Invalid iOS SSH session identifier"@,
        )),
{
    let cs = text::chars_of(value);
    let n = text::utf8_len_capped(&cs, 97);
    let mut ok = 12 <= n && n <= 96;
    let mut i: usize = 0;
    while i < cs.len()
        invariant
            i <= cs@.len(),
            ok == (12 <= n <= 96 && forall|j: int| 0 <= j < i ==> session_id_char(#[trigger] cs@[j])),
        decreases cs@.len() - i,
    {
        let c = cs[i];
        if !(text::is_alnum_exec(c) || c == '-') {
            ok = false;
        }
        i = i + 1;
    }
    if !ok {
        return Err(ApiError::new("invalid_ios_ssh_session_id", "Invalid iOS SSH session identifier"));
    }
    Ok(value)
}

/// At most 16 sessions are kept at once.
pub fn check_session_capacity(active: usize) -> (r: Result<(), ApiError>)
    ensures
        active < MAX_SESSIONS ==> r is Ok,
        active >= MAX_SESSIONS ==> (r matches Err(e) && is_error(
            e,
            "ios_ssh_session_limit"@,
            "At most 16 iOS SSH sessions may be active"@,
        )),
{
    if active >= MAX_SESSIONS {
        return Err(ApiError::new("ios_ssh_session_limit", "At most 16 iOS SSH sessions may be active"));
    }
    Ok(())
}


// ---------------------------------------------------------------------------
// The session registry
// ---------------------------------------------------------------------------

/// The SSH sessions the application keeps, by session id, with what it
/// holds for each.
pub struct SessionRegistry<T> {
    entries: Vec<(String, T)>,
}

pub open spec fn distinct_ids(ids: Seq<Seq<char>>) -> bool {
    forall|i: int, j: int| 0 <= i < j < ids.len() ==> ids[i] != ids[j]
}

/// The ids of a list of kept sessions, in order.
pub open spec fn ids_of<T>(items: Seq<(Seq<char>, T)>) -> Seq<Seq<char>> {
    items.map_values(|e: (Seq<char>, T)| e.0)
}

/// The sessions once `value` is kept under `id`: in place of the session
/// kept under that id, if there is one, else after the others.
pub open spec fn keep_session<T>(items: Seq<(Seq<char>, T)>, id: Seq<char>, value: T) -> Seq<(Seq<char>, T)> {
    if ids_of(items).contains(id) {
        items.map_values(|e: (Seq<char>, T)| if e.0 == id { (id, value) } else { e })
    } else {
        items.push((id, value))
    }
}

/// Keeping a session where there is room, or under an id that is kept
/// already, leaves each id once and at most 16 sessions; the session is then
/// found under its id with the new value, and every other id keeps its own.
pub proof fn lemma_keep_session<T>(items: Seq<(Seq<char>, T)>, id: Seq<char>, value: T)
    requires
        distinct_ids(ids_of(items)),
        items.len() <= MAX_SESSIONS,
        ids_of(items).contains(id) || items.len() < MAX_SESSIONS,
    ensures
        distinct_ids(ids_of(keep_session(items, id, value))),
        keep_session(items, id, value).len() <= MAX_SESSIONS,
        keep_session(items, id, value).contains((id, value)),
        forall|e: (Seq<char>, T)| e.0 != id ==> (keep_session(items, id, value).contains(e) <==> items.contains(e)),
{
    let k = keep_session(items, id, value);
    if ids_of(items).contains(id) {
        let i = choose|i: int| 0 <= i < items.len() && ids_of(items)[i] == id;
        assert(ids_of(k) =~= ids_of(items));
        assert(k[i] == (id, value));
        assert forall|e: (Seq<char>, T)| e.0 != id implies (k.contains(e) <==> items.contains(e)) by {
            if k.contains(e) {
                let j = choose|j: int| 0 <= j < k.len() && k[j] == e;
                assert(items[j] == e);
            }
            if items.contains(e) {
                let j = choose|j: int| 0 <= j < items.len() && items[j] == e;
                assert(k[j] == e);
            }
        }
    } else {
        assert(ids_of(k) =~= ids_of(items).push(id));
        assert(k[items.len() as int] == (id, value));
        assert forall|e: (Seq<char>, T)| e.0 != id implies (k.contains(e) <==> items.contains(e)) by {
            if k.contains(e) {
                let j = choose|j: int| 0 <= j < k.len() && k[j] == e;
                assert(j < items.len());
                assert(items[j] == e);
            }
            if items.contains(e) {
                let j = choose|j: int| 0 <= j < items.len() && items[j] == e;
                assert(k[j] == e);
            }
        }
    }
}

impl<T> SessionRegistry<T> {
    /// The kept sessions, oldest first: each id with what is held for it.
    pub closed spec fn items(&self) -> Seq<(Seq<char>, T)> {
        self.entries@.map_values(|e: (String, T)| (e.0@, e.1))
    }

    /// The ids of the kept sessions, oldest first.
    pub open spec fn ids(&self) -> Seq<Seq<char>> {
        ids_of(self.items())
    }

    /// At most 16 sessions, each id once.
    #[verifier::type_invariant]
    spec fn wf(&self) -> bool {
        self.ids().len() <= MAX_SESSIONS && distinct_ids(self.ids())
    }

    pub fn new() -> (r: Self)
        ensures
            r.items().len() == 0,
    {
        let r = SessionRegistry { entries: Vec::new() };
        assert(r.items() =~= Seq::<(Seq<char>, T)>::empty());
        assert(r.ids() =~= Seq::<Seq<char>>::empty());
        r
    }

    pub fn len(&self) -> (n: usize)
        ensures
            n == self.ids().len(),
    {
        self.entries.len()
    }

    fn index_of(&self, id: &str) -> (r: Option<usize>)
        ensures
            match r {
                Some(i) => i < self.ids().len() && self.ids()[i as int] == id@,
                None => !self.ids().contains(id@),
            },
    {
        let mut i: usize = 0;
        while i < self.entries.len()
            invariant
                i <= self.entries@.len(),
                forall|k: int| 0 <= k < i ==> self.ids()[k] != id@,
            decreases self.entries@.len() - i,
        {
            if text::eq_str_str(self.entries[i].0.as_str(), id) {
                return Some(i);
            }
            i = i + 1;
        }
        proof {
            if self.ids().contains(id@) {
                let k = choose|k: int| 0 <= k < self.ids().len() && self.ids()[k] == id@;
                assert(self.ids()[k] != id@);
            }
        }
        None
    }

    /// Whether a session of this id is kept.
    pub fn contains(&self, id: &str) -> (r: bool)
        ensures
            r == self.ids().contains(id@),
    {
        self.index_of(id).is_some()
    }

    /// The session kept under `id`.
    pub fn get(&self, id: &str) -> (r: Option<&T>)
        ensures
            r is Some <==> self.ids().contains(id@),
            r matches Some(v) ==> self.items().contains((id@, *v)),
    {
        match self.index_of(id) {
            Some(i) => {
                assert(self.items()[i as int] == (id@, self.entries@[i as int].1));
                Some(&self.entries[i].1)
            },
            None => None,
        }
    }

    /// Keeps `value` under `id`, in place of a session of that id.
    fn keep(&mut self, id: String, value: T)
        requires
            old(self).ids().contains(id@) || old(self).ids().len() < MAX_SESSIONS,
        ensures
            final(self).items() == keep_session(old(self).items(), id@, value),
    {
        proof {
            use_type_invariant(&*self);
        }
        let ghost before = self.items();
        let ghost key = id@;
        let ghost v = value;
        proof {
            lemma_keep_session(before, key, v);
        }
        let found = self.index_of(id.as_str());
        let mut entries: Vec<(String, T)> = Vec::new();
        std::mem::swap(&mut entries, &mut self.entries);
        assert(entries@.map_values(|e: (String, T)| (e.0@, e.1)) == before);
        match found {
            Some(i) => {
                proof {
                    assert(ids_of(before)[i as int] == key);
                }
                entries.set(i, (id, value));
                let ghost after = entries@.map_values(|e: (String, T)| (e.0@, e.1));
                assert forall|j: int| 0 <= j < before.len() implies #[trigger] after[j]
                    == (if before[j].0 == key { (key, v) } else { before[j] }) by {
                    if j != i as int {
                        assert(ids_of(before)[j] != ids_of(before)[i as int]);
                    }
                }
                assert(after =~= keep_session(before, key, v));
            },
            None => {
                entries.push((id, value));
                assert(entries@.map_values(|e: (String, T)| (e.0@, e.1)) =~= before.push((key, v)));
            },
        }
        self.entries = entries;
    }

    /// Keeps a new session, unless the application is exiting or 16
    /// sessions are kept already; a session under an id that is kept
    /// already takes its place. A refused session is handed back.
    pub fn insert(&mut self, shutting_down: bool, id: String, value: T) -> (r: Result<(), (ApiError, T)>)
        ensures
            final(self).ids().len() <= MAX_SESSIONS,
            shutting_down ==> (r matches Err((e, v)) && v == value && is_error(
                e,
                "app_shutting_down"@,
                "Mobius is exiting and cannot retain the SSH session"@,
            )) && final(self).items() == old(self).items(),
            !shutting_down && old(self).ids().len() >= MAX_SESSIONS ==> (r matches Err((e, v)) && v == value
                && is_error(
                e,
                "ios_ssh_session_limit"@,
                "At most 16 iOS SSH sessions may be active"@,
            )) && final(self).items() == old(self).items(),
            !shutting_down && old(self).ids().len() < MAX_SESSIONS ==> r is Ok && final(self).items()
                == keep_session(old(self).items(), id@, value),
    {
        proof {
            use_type_invariant(&*self);
        }
        if shutting_down {
            return Err((ApiError::new("app_shutting_down", "Mobius is exiting and cannot retain the SSH session"), value));
        }
        if let Err(e) = check_session_capacity(self.entries.len()) {
            return Err((e, value));
        }
        self.keep(id, value);
        Ok(())
    }

    /// Puts back a session that was taken out to be looked at: under its
    /// id, in place of a session of that id, or after the others where
    /// there is room; where there is none it is handed back.
    pub fn restore(&mut self, id: String, value: T) -> (r: Option<T>)
        ensures
            final(self).ids().len() <= MAX_SESSIONS,
            old(self).ids().contains(id@) || old(self).ids().len() < MAX_SESSIONS ==> r is None
                && final(self).items() == keep_session(old(self).items(), id@, value),
            !old(self).ids().contains(id@) && old(self).ids().len() >= MAX_SESSIONS ==> r == Some(value)
                && final(self).items() == old(self).items(),
    {
        proof {
            use_type_invariant(&*self);
        }
        if self.entries.len() >= MAX_SESSIONS && !self.contains(id.as_str()) {
            return Some(value);
        }
        self.keep(id, value);
        None
    }

    /// Takes the session kept under `id` out of the registry.
    pub fn remove(&mut self, id: &str) -> (r: Option<T>)
        ensures
            final(self).ids().len() <= MAX_SESSIONS,
            r is Some <==> old(self).ids().contains(id@),
            r is None ==> final(self).items() == old(self).items(),
            r matches Some(v) ==> exists|k: int|
                0 <= k < old(self).items().len() && old(self).items()[k] == (id@, v) && final(self).items()
                    == old(self).items().remove(k),
            !final(self).ids().contains(id@),
            final(self).ids().len() == old(self).ids().len() - (if r is Some { 1int } else { 0int }),
    {
        proof {
            use_type_invariant(&*self);
        }
        let ghost before = self.items();
        match self.index_of(id) {
            None => None,
            Some(i) => {
                let mut entries: Vec<(String, T)> = Vec::new();
                std::mem::swap(&mut entries, &mut self.entries);
                assert(entries@.map_values(|e: (String, T)| (e.0@, e.1)) == before);
                let (_, value) = entries.remove(i);
                assert(entries@.map_values(|e: (String, T)| (e.0@, e.1)) =~= before.remove(i as int));
                proof {
                    assert(ids_of(before.remove(i as int)) =~= ids_of(before).remove(i as int));
                    assert(distinct_ids(ids_of(before).remove(i as int))) by {
                        let b = ids_of(before);
                        assert forall|x: int, y: int| 0 <= x < y < b.len() - 1 implies b.remove(i as int)[x]
                            != b.remove(i as int)[y] by {
                            let xx = if x < i { x } else { x + 1 };
                            let yy = if y < i { y } else { y + 1 };
                            assert(b[xx] != b[yy]);
                        }
                    }
                }
                self.entries = entries;
                assert(self.items() =~= before.remove(i as int));
                assert(ids_of(self.items()) =~= ids_of(before).remove(i as int));
                assert(before[i as int] == (id@, value));
                assert(!self.ids().contains(id@)) by {
                    if self.ids().contains(id@) {
                        let k = choose|k: int| 0 <= k < self.ids().len() && self.ids()[k] == id@;
                        if k < i {
                            assert(ids_of(before)[k] == ids_of(before)[i as int]);
                        } else {
                            assert(ids_of(before)[k + 1] == ids_of(before)[i as int]);
                        }
                    }
                }
                Some(value)
            },
        }
    }

    /// Takes every session out, oldest first.
    pub fn drain(&mut self) -> (r: Vec<(String, T)>)
        ensures
            final(self).items().len() == 0,
            r@.len() == old(self).items().len(),
            forall|k: int| 0 <= k < r@.len() ==> (#[trigger] r@[k].0@, r@[k].1) == old(self).items()[k],
    {
        let mut out: Vec<(String, T)> = Vec::new();
        std::mem::swap(&mut out, &mut self.entries);
        assert(self.items() =~= Seq::<(Seq<char>, T)>::empty());
        assert(self.ids() =~= Seq::<Seq<char>>::empty());
        out
    }
}

// ---------------------------------------------------------------------------
// ssh and scp arguments
// ---------------------------------------------------------------------------

/// The authentication options: a private key in batch mode, or a single
/// password prompt answered by the askpass helper; never the password itself.
pub open spec fn auth_args(a: IosSshAuthentication, scp: bool) -> Seq<Seq<char>> {
    match a {
        IosSshAuthentication::PrivateKey(path) => (if scp {
            seq!["-B"@]
        } else {
            Seq::empty()
        }) + seq![
            "-i"@,
            path@,
            "-o"@,
            "BatchMode=yes"@,
            "-o"@,
            "IdentitiesOnly=yes"@,
            "-o"@,
            "PreferredAuthentications=publickey"@,
            "-o"@,
            "PasswordAuthentication=no"@,
            "-o"@,
            "KbdInteractiveAuthentication=no"@,
        ],
        IosSshAuthentication::Password(_) => seq![
            "-o"@,
            "BatchMode=no"@,
            "-o"@,
            "IdentitiesOnly=yes"@,
            "-o"@,
            "PubkeyAuthentication=no"@,
            "-o"@,
            "PreferredAuthentications=password"@,
            "-o"@,
            "PasswordAuthentication=yes"@,
            "-o"@,
            "KbdInteractiveAuthentication=no"@,
            "-o"@,
            "NumberOfPasswordPrompts=1"@,
        ],
    }
}

pub open spec fn alias_args(alias: Option<String>) -> Seq<Seq<char>> {
    match alias {
        Some(a) => seq!["-o"@, "HostKeyAlias="@ + a@],
        None => Seq::empty(),
    }
}

pub open spec fn ssh_args(c: IosSshConnection) -> Seq<Seq<char>> {
    seq![
        "-T"@,
        "-F"@,
        "none"@,
        "-p"@,
        text::decimal(c.ssh_port as nat),
        "-o"@,
        "StrictHostKeyChecking=accept-new"@,
        "-o"@,
        "UserKnownHostsFile="@ + c.known_hosts_path@,
        "-o"@,
        "ConnectTimeout=8"@,
        "-o"@,
        "ServerAliveInterval=15"@,
        "-o"@,
        "ServerAliveCountMax=2"@,
        "-o"@,
        "LogLevel=ERROR"@,
    ] + auth_args(c.authentication, false) + alias_args(c.host_key_alias)
}

pub open spec fn scp_args(c: IosSshConnection) -> Seq<Seq<char>> {
    seq![
        "-F"@,
        "none"@,
        "-P"@,
        text::decimal(c.ssh_port as nat),
        "-o"@,
        "StrictHostKeyChecking=accept-new"@,
        "-o"@,
        "UserKnownHostsFile="@ + c.known_hosts_path@,
        "-o"@,
        "ConnectTimeout=8"@,
        "-o"@,
        "LogLevel=ERROR"@,
    ] + auth_args(c.authentication, true) + alias_args(c.host_key_alias)
}

fn append_authentication_args(args: &mut Vec<String>, authentication: &IosSshAuthentication, scp: bool)
    ensures
        text::string_views(final(args)@) == text::string_views(old(args)@) + auth_args(
            *authentication,
            scp,
        ),
{
    let ghost before = text::string_views(args@);
    match authentication {
        IosSshAuthentication::PrivateKey(path) => {
            if scp {
                text::push_str(args, "-B");
            }
            text::push_str(args, "-i");
            text::push_str(args, path.as_str());
            text::push_str(args, "-o");
            text::push_str(args, "BatchMode=yes");
            text::push_str(args, "-o");
            text::push_str(args, "IdentitiesOnly=yes");
            text::push_str(args, "-o");
            text::push_str(args, "PreferredAuthentications=publickey");
            text::push_str(args, "-o");
            text::push_str(args, "PasswordAuthentication=no");
            text::push_str(args, "-o");
            text::push_str(args, "KbdInteractiveAuthentication=no");
        },
        IosSshAuthentication::Password(_) => {
            text::push_str(args, "-o");
            text::push_str(args, "BatchMode=no");
            text::push_str(args, "-o");
            text::push_str(args, "IdentitiesOnly=yes");
            text::push_str(args, "-o");
            text::push_str(args, "PubkeyAuthentication=no");
            text::push_str(args, "-o");
            text::push_str(args, "PreferredAuthentications=password");
            text::push_str(args, "-o");
            text::push_str(args, "PasswordAuthentication=yes");
            text::push_str(args, "-o");
            text::push_str(args, "KbdInteractiveAuthentication=no");
            text::push_str(args, "-o");
            text::push_str(args, "NumberOfPasswordPrompts=1");
        },
    }
    assert(text::string_views(args@) =~= before + auth_args(*authentication, scp));
}

fn append_alias_args(args: &mut Vec<String>, alias: &Option<String>)
    ensures
        text::string_views(final(args)@) == text::string_views(old(args)@) + alias_args(*alias),
{
    let ghost before = text::string_views(args@);
    if let Some(a) = alias {
        text::push_str(args, "-o");
        text::push_string(args, text::concat_strs("HostKeyAlias=", a.as_str()));
        assert(text::string_views(args@) =~= before + alias_args(*alias));
    } else {
        assert(text::string_views(args@) =~= before + alias_args(*alias));
    }
}

/// The fixed `ssh` options of a connection.
pub fn ssh_base_args(connection: &IosSshConnection) -> (r: Vec<String>)
    ensures
        text::string_views(r@) == ssh_args(*connection),
{
    let mut args: Vec<String> = Vec::new();
    text::push_str(&mut args, "-T");
    text::push_str(&mut args, "-F");
    text::push_str(&mut args, "none");
    text::push_str(&mut args, "-p");
    text::push_string(&mut args, text::decimal_string(connection.ssh_port as u64));
    text::push_str(&mut args, "-o");
    text::push_str(&mut args, "StrictHostKeyChecking=accept-new");
    text::push_str(&mut args, "-o");
    text::push_string(&mut args, text::concat_strs("UserKnownHostsFile=", connection.known_hosts_path.as_str()));
    text::push_str(&mut args, "-o");
    text::push_str(&mut args, "ConnectTimeout=8");
    text::push_str(&mut args, "-o");
    text::push_str(&mut args, "ServerAliveInterval=15");
    text::push_str(&mut args, "-o");
    text::push_str(&mut args, "ServerAliveCountMax=2");
    text::push_str(&mut args, "-o");
    text::push_str(&mut args, "LogLevel=ERROR");
    let ghost fixed = text::string_views(args@);
    assert(fixed =~= ssh_args(*connection).take(17));
    append_authentication_args(&mut args, &connection.authentication, false);
    append_alias_args(&mut args, &connection.host_key_alias);
    assert(text::string_views(args@) =~= ssh_args(*connection));
    args
}

/// The fixed `scp` options of a connection.
pub fn scp_base_args(connection: &IosSshConnection) -> (r: Vec<String>)
    ensures
        text::string_views(r@) == scp_args(*connection),
{
    let mut args: Vec<String> = Vec::new();
    text::push_str(&mut args, "-F");
    text::push_str(&mut args, "none");
    text::push_str(&mut args, "-P");
    text::push_string(&mut args, text::decimal_string(connection.ssh_port as u64));
    text::push_str(&mut args, "-o");
    text::push_str(&mut args, "StrictHostKeyChecking=accept-new");
    text::push_str(&mut args, "-o");
    text::push_string(&mut args, text::concat_strs("UserKnownHostsFile=", connection.known_hosts_path.as_str()));
    text::push_str(&mut args, "-o");
    text::push_str(&mut args, "ConnectTimeout=8");
    text::push_str(&mut args, "-o");
    text::push_str(&mut args, "LogLevel=ERROR");
    let ghost fixed = text::string_views(args@);
    assert(fixed =~= scp_args(*connection).take(12));
    append_authentication_args(&mut args, &connection.authentication, true);
    append_alias_args(&mut args, &connection.host_key_alias);
    assert(text::string_views(args@) =~= scp_args(*connection));
    args
}

/// The `ssh` options never depend on the password: two connections that
/// differ only in their password get the same options.
pub proof fn lemma_ssh_args_ignore_password(c: IosSshConnection, p: SecretString, q: SecretString)
    requires
        c.authentication is Password,
    ensures
        ssh_args(IosSshConnection { authentication: IosSshAuthentication::Password(p), ..c })
            == ssh_args(IosSshConnection { authentication: IosSshAuthentication::Password(q), ..c }),
        scp_args(IosSshConnection { authentication: IosSshAuthentication::Password(p), ..c })
            == scp_args(IosSshConnection { authentication: IosSshAuthentication::Password(q), ..c }),
{
}

/// `user@host`.
pub fn ssh_target(connection: &IosSshConnection) -> (r: String)
    ensures
        r@ == connection.username@ + seq!['@'] + connection.ssh_host@,
{
    let mut out = text::chars_of(connection.username.as_str());
    out.push('@');
    text::append_str(&mut out, connection.ssh_host.as_str());
    text::string_of(&out)
}

/// The arguments of an `ssh` run of one remote command.
pub fn ssh_command_args(connection: &IosSshConnection, command: &str) -> (r: Vec<String>)
    ensures
        text::string_views(r@) == ssh_args(*connection).push(
            connection.username@ + seq!['@'] + connection.ssh_host@,
        ).push(command@),
{
    let mut args = ssh_base_args(connection);
    let ghost before = text::string_views(args@);
    let t = ssh_target(connection);
    text::push_string(&mut args, t);
    text::push_str(&mut args, command);
    assert(text::string_views(args@) =~= before.push(
        connection.username@ + seq!['@'] + connection.ssh_host@,
    ).push(command@));
    args
}

pub open spec fn scp_glob_char(c: char) -> bool {
    c == '*' || c == '?' || c == '[' || c == ']' || c == '\\'
}

/// The `user@host:path` operand of `scp` (an IPv6 host in brackets); the
/// path passes as one raw SFTP path, so glob and escape characters are
/// refused.
pub open spec fn scp_spec(c: IosSshConnection, path: Seq<char>) -> Result<Seq<char>, (Seq<char>, Seq<char>)> {
    match validation::remote_path_check(path) {
        Err(e) => Err(e),
        Ok(()) => if exists|i: int| 0 <= i < path.len() && scp_glob_char(#[trigger] path[i]) {
            Err(
                (
                    "unsupported_scp_path"@,
                    "SCP paths cannot contain wildcard or escape characters (*, ?, [, ], or \\)"@,
                ),
            )
        } else {
            Ok(
                c.username@ + seq!['@'] + (if text::contains(c.ssh_host@, seq![':']) {
                    seq!['['] + c.ssh_host@ + seq![']']
                } else {
                    c.ssh_host@
                }) + seq![':'] + path,
            )
        },
    }
}

pub fn scp_remote_spec(connection: &IosSshConnection, remote_path: &str) -> (r: Result<String, ApiError>)
    ensures
        match scp_spec(*connection, remote_path@) {
            Ok(s) => r matches Ok(t) && t@ == s,
            Err((code, message)) => r matches Err(e) && is_error(e, code, message),
        },
{
    match validation::remote_path(remote_path) {
        Ok(_) => {},
        Err(e) => {
            return Err(e);
        },
    }
    let cs = text::chars_of(remote_path);
    let mut i: usize = 0;
    while i < cs.len()
        invariant
            i <= cs@.len(),
            cs@ == remote_path@,
            validation::remote_path_check(remote_path@) is Ok,
            forall|j: int| 0 <= j < i ==> !scp_glob_char(#[trigger] cs@[j]),
        decreases cs@.len() - i,
    {
        let c = cs[i];
        if c == '*' || c == '?' || c == '[' || c == ']' || c == '\\' {
            assert(scp_glob_char(cs@[i as int]));
            return Err(
                ApiError::new(
                    "unsupported_scp_path",
                    "SCP paths cannot contain wildcard or escape characters (*, ?, [, ], or \\)",
                ),
            );
        }
        i = i + 1;
    }
    let host = text::chars_of(connection.ssh_host.as_str());
    let colon: Vec<char> = vec![':'];
    assert(colon@ =~= seq![':']);
    let mut out = text::chars_of(connection.username.as_str());
    out.push('@');
    if text::contains_exec(&host, &colon) {
        out.push('[');
        text::append(&mut out, &host);
        out.push(']');
    } else {
        text::append(&mut out, &host);
    }
    out.push(':');
    text::append(&mut out, &cs);
    assert(out@ =~= scp_spec(*connection, remote_path@)->Ok_0);
    Ok(text::string_of(&out))
}

// ---------------------------------------------------------------------------
// The askpass helper
// ---------------------------------------------------------------------------

/// The environment of an `ssh` or `scp` run: for password authentication it
/// points `SSH_ASKPASS` at `helper` (this program) and hands the password
/// over in `MOBIUS_SSH_PASSWORD`; for key authentication it is empty.
pub open spec fn askpass_env(a: IosSshAuthentication, helper: Seq<char>) -> Seq<(Seq<char>, Seq<char>)> {
    match a {
        IosSshAuthentication::PrivateKey(_) => Seq::empty(),
        IosSshAuthentication::Password(p) => seq![
            ("SSH_ASKPASS"@, helper),
            ("SSH_ASKPASS_REQUIRE"@, "force"@),
            ("DISPLAY"@, "mobius:0"@),
            ("MOBIUS_SSH_ASKPASS"@, "1"@),
            ("MOBIUS_SSH_PASSWORD"@, p.secret()),
        ],
    }
}

pub fn askpass_environment(connection: &IosSshConnection, helper: &str) -> (r: Vec<(String, String)>)
    ensures
        text::pair_views(r@) == askpass_env(connection.authentication, helper@),
{
    let mut env: Vec<(String, String)> = Vec::new();
    match &connection.authentication {
        IosSshAuthentication::PrivateKey(_) => {
            assert(text::pair_views(env@) =~= askpass_env(connection.authentication, helper@));
        },
        IosSshAuthentication::Password(p) => {
            env.push((text::copy_str("SSH_ASKPASS"), text::copy_str(helper)));
            env.push((text::copy_str("SSH_ASKPASS_REQUIRE"), text::copy_str("force")));
            env.push((text::copy_str("DISPLAY"), text::copy_str("mobius:0")));
            env.push((text::copy_str("MOBIUS_SSH_ASKPASS"), text::copy_str("1")));
            env.push((text::copy_str("MOBIUS_SSH_PASSWORD"), text::copy_str(p.expose_secret())));
            assert(text::pair_views(env@) =~= askpass_env(connection.authentication, helper@));
        },
    }
    env
}

/// Calls `zeroize::Zeroize::zeroize` on a `String`: the crate overwrites its
/// bytes with zeros and clears it, so it is left empty.
#[verifier::external_body]
fn zeroize_string(s: &mut String)
    ensures
        final(s)@ == Seq::<char>::empty(),
{
    zeroize::Zeroize::zeroize(s);
}

/// Wipes the password out of an askpass environment; every other entry is
/// kept as it was.
pub fn zeroize_askpass_environment(environment: &mut Vec<(String, String)>)
    ensures
        final(environment)@.len() == old(environment)@.len(),
        forall|i: int|
            0 <= i < old(environment)@.len() ==> (#[trigger] final(environment)@[i]).0@ == old(
                environment,
            )@[i].0@ && final(environment)@[i].1@ == (if old(environment)@[i].0@
                == "MOBIUS_SSH_PASSWORD"@ {
                Seq::<char>::empty()
            } else {
                old(environment)@[i].1@
            }),
{
    let ghost original = environment@;
    let mut i: usize = 0;
    while i < environment.len()
        invariant
            i <= environment@.len(),
            environment@.len() == original.len(),
            forall|j: int|
                0 <= j < original.len() ==> (#[trigger] environment@[j]).0@ == original[j].0@,
            forall|j: int| i <= j < original.len() ==> (#[trigger] environment@[j]).1@ == original[j].1@,
            forall|j: int|
                0 <= j < i ==> (#[trigger] environment@[j]).1@ == (if original[j].0@
                    == "MOBIUS_SSH_PASSWORD"@ {
                    Seq::<char>::empty()
                } else {
                    original[j].1@
                }),
        decreases environment@.len() - i,
    {
        if text::eq_str_str(environment[i].0.as_str(), "MOBIUS_SSH_PASSWORD") {
            let ghost before = environment@;
            let (key, mut value) = environment.remove(i);
            zeroize_string(&mut value);
            environment.insert(i, (key, value));
            assert forall|j: int| 0 <= j < original.len() && j != i implies environment@[j]
                == before[j] by {
                if j < i {
                } else {
                }
            }
        }
        i = i + 1;
    }
}


// ---------------------------------------------------------------------------
// Responses of the fixed remote scripts
// ---------------------------------------------------------------------------

/// The device command of the connection probe.
pub fn probe_command() -> (r: &'static str)
    ensures
        r@ == "printf 'MOBIUS_SSH_READY\\n'; uname -s; id -u"@,
{
    "printf 'MOBIUS_SSH_READY\\n'; uname -s; id -u"
}

/// What the probe learned of the device.
#[derive(Debug, Clone)]
pub struct ProbeResult {
    pub server_system: Option<String>,
    pub remote_uid: Option<u32>,
}

/// After the probe marker line: the system name (at most 80 characters),
/// when that line is not empty, and the numeric user id on the next line.
pub open spec fn probe_spec(stdout: Seq<char>) -> Option<(Option<Seq<char>>, Option<nat>)> {
    let ls = text::trimmed_lines(stdout);
    match text::first_index(ls, "MOBIUS_SSH_READY"@) {
        None => None,
        Some(m) => Some(
            (
                if m + 1 < ls.len() && ls[m + 1].len() > 0 {
                    Some(text::take_chars(ls[m + 1], 80))
                } else {
                    None
                },
                if m + 2 < ls.len() {
                    text::parse_uint(ls[m + 2], u32::MAX as nat)
                } else {
                    None
                },
            ),
        ),
    }
}

pub fn parse_probe_output(stdout: &str) -> (r: Result<ProbeResult, ApiError>)
    ensures
        match probe_spec(stdout@) {
            None => r matches Err(e) && is_error(
                e,
                "invalid_ssh_probe"@,
                "SSH connected, but the device did not return the expected validation marker"@,
            ),
            Some((system, uid)) => r matches Ok(p) && text::opt_view(p.server_system) == system
                && match uid {
                Some(n) => p.remote_uid == Some(n as u32),
                None => p.remote_uid is None,
            },
        },
{
    let ls = text::trimmed_lines_of(stdout);
    let ghost vs = text::views(ls@);
    let marker = text::chars_of("MOBIUS_SSH_READY");
    let m = match text::first_index_exec(&ls, &marker) {
        Some(m) => m,
        None => {
            return Err(
                ApiError::new(
                    "invalid_ssh_probe",
                    "SSH connected, but the device did not return the expected validation marker",
                ),
            );
        },
    };
    proof {
        text::lemma_first_index_bounds(vs, marker@);
    }
    let n = ls.len();
    assert(vs.len() == n);
    let server_system = if n - m > 1 && ls[m + 1].len() > 0 {
        assert(vs[m + 1] == ls@[m + 1]@);
        Some(text::string_of(&text::take_chars_exec(&ls[m + 1], 80)))
    } else {
        None
    };
    let remote_uid = if n - m > 2 {
        assert(vs[m + 2] == ls@[m + 2]@);
        match text::parse_uint_exec(&ls[m + 2], 0xffff_ffff) {
            Some(v) => Some(v as u32),
            None => None,
        }
    } else {
        None
    };
    Ok(ProbeResult { server_system, remote_uid })
}

/// The device command that prints the physical form of a directory.
pub open spec fn canonical_command(requested: Seq<char>) -> Seq<char> {
    "cd "@ + validation::quote(requested) + " && printf 'MOBIUS_PATH_READY\\n' && pwd -P"@
}

pub fn canonical_directory_command(requested: &str) -> (r: String)
    ensures
        r@ == canonical_command(requested@),
{
    let q = validation::quote_remote(requested);
    let mut out = text::chars_of("cd ");
    text::append_str(&mut out, q.as_str());
    text::append_str(&mut out, " && printf 'MOBIUS_PATH_READY\\n' && pwd -P");
    assert(out@ =~= canonical_command(requested@));
    text::string_of(&out)
}

/// The directory printed after the path marker, normalized.
pub open spec fn canonical_spec(stdout: Seq<char>) -> Result<Seq<char>, (Seq<char>, Seq<char>)> {
    let ls = text::trimmed_lines(stdout);
    match text::first_index(ls, "MOBIUS_PATH_READY"@) {
        None => Err(
            ("invalid_remote_path_response"@, "The device did not return a canonical remote directory"@),
        ),
        Some(m) => if m + 1 < ls.len() {
            normalized_path(ls[m + 1])
        } else {
            Err(
                (
                    "invalid_remote_path_response"@,
                    "The device returned an empty canonical remote directory"@,
                ),
            )
        },
    }
}

pub fn parse_canonical_directory(stdout: &str) -> (r: Result<String, ApiError>)
    ensures
        match canonical_spec(stdout@) {
            Ok(p) => r matches Ok(s) && s@ == p,
            Err((code, message)) => r matches Err(e) && is_error(e, code, message),
        },
{
    let ls = text::trimmed_lines_of(stdout);
    let ghost vs = text::views(ls@);
    let marker = text::chars_of("MOBIUS_PATH_READY");
    let m = match text::first_index_exec(&ls, &marker) {
        Some(m) => m,
        None => {
            return Err(
                ApiError::new(
                    "invalid_remote_path_response",
                    "The device did not return a canonical remote directory",
                ),
            );
        },
    };
    proof {
        text::lemma_first_index_bounds(vs, marker@);
    }
    let n = ls.len();
    assert(vs.len() == n);
    if n - m <= 1 {
        return Err(
            ApiError::new(
                "invalid_remote_path_response",
                "The device returned an empty canonical remote directory",
            ),
        );
    }
    assert(vs[m + 1] == ls@[m + 1]@);
    let line = text::string_of(&ls[m + 1]);
    normalize_remote_path(line.as_str())
}

/// What a remote path names.
#[derive(Debug, Clone, Copy, PartialEq, Eq, Structural)]
pub enum RemoteEntryKind {
    Missing,
    File,
    Directory,
    Link,
    Other,
}

/// The device command that prints the kind of a path after `MOBIUS_TYPE:`
/// (a link is reported as a link, not as what it points to).
pub open spec fn kind_command(path: Seq<char>) -> Seq<char> {
    let q = validation::quote(path);
    "if [ -h "@ + q + " ] || [ -L "@ + q + " ]; then mobius_kind=link; elif [ -d "@ + q
        + " ]; then mobius_kind=directory; elif [ -f "@ + q + " ]; then mobius_kind=file; elif [ -e "@
        + q + " ]; then mobius_kind=other; else mobius_kind=missing; fi; printf 'MOBIUS_TYPE:%s\\n' \"$mobius_kind\""@
}

pub fn remote_kind_command(path: &str) -> (r: String)
    ensures
        r@ == kind_command(path@),
{
    let q = validation::quote_remote(path);
    let qs = q.as_str();
    let mut out = text::chars_of("if [ -h ");
    text::append_str(&mut out, qs);
    text::append_str(&mut out, " ] || [ -L ");
    text::append_str(&mut out, qs);
    text::append_str(&mut out, " ]; then mobius_kind=link; elif [ -d ");
    text::append_str(&mut out, qs);
    text::append_str(&mut out, " ]; then mobius_kind=directory; elif [ -f ");
    text::append_str(&mut out, qs);
    text::append_str(&mut out, " ]; then mobius_kind=file; elif [ -e ");
    text::append_str(&mut out, qs);
    text::append_str(
        &mut out,
        " ]; then mobius_kind=other; else mobius_kind=missing; fi; printf 'MOBIUS_TYPE:%s\\n' \"$mobius_kind\"",
    );
    assert(out@ =~= kind_command(path@));
    text::string_of(&out)
}

pub open spec fn kind_word(w: Seq<char>) -> Option<RemoteEntryKind> {
    if w == "missing"@ {
        Some(RemoteEntryKind::Missing)
    } else if w == "file"@ {
        Some(RemoteEntryKind::File)
    } else if w == "directory"@ {
        Some(RemoteEntryKind::Directory)
    } else if w == "link"@ {
        Some(RemoteEntryKind::Link)
    } else if w == "other"@ {
        Some(RemoteEntryKind::Other)
    } else {
        None
    }
}

/// The kind named after `MOBIUS_TYPE:` on the first (trimmed) line that
/// carries it.
pub open spec fn kind_spec(stdout: Seq<char>) -> Result<RemoteEntryKind, Seq<char>> {
    match text::first_stripped(text::trimmed_lines(stdout), "MOBIUS_TYPE:"@) {
        None => Err("The device did not return the remote path type"@),
        Some(w) => match kind_word(w) {
            Some(k) => Ok(k),
            None => Err("The device returned an unknown remote path type"@),
        },
    }
}

pub fn parse_remote_kind(stdout: &str) -> (r: Result<RemoteEntryKind, ApiError>)
    ensures
        match kind_spec(stdout@) {
            Ok(k) => r == Ok::<RemoteEntryKind, ApiError>(k),
            Err(m) => r matches Err(e) && is_error(e, "invalid_remote_type_response"@, m),
        },
{
    let ls = text::trimmed_lines_of(stdout);
    let w = match text::first_stripped_exec(&ls, "MOBIUS_TYPE:") {
        Some(w) => w,
        None => {
            return Err(
                ApiError::new(
                    "invalid_remote_type_response",
                    "The device did not return the remote path type",
                ),
            );
        },
    };
    if text::eq_str(&w, "missing") {
        Ok(RemoteEntryKind::Missing)
    } else if text::eq_str(&w, "file") {
        Ok(RemoteEntryKind::File)
    } else if text::eq_str(&w, "directory") {
        Ok(RemoteEntryKind::Directory)
    } else if text::eq_str(&w, "link") {
        Ok(RemoteEntryKind::Link)
    } else if text::eq_str(&w, "other") {
        Ok(RemoteEntryKind::Other)
    } else {
        Err(
            ApiError::new(
                "invalid_remote_type_response",
                "The device returned an unknown remote path type",
            ),
        )
    }
}

/// The device command that lists a directory after a marker line.
pub fn list_command(directory: &str) -> (r: String)
    ensures
        r@ == "printf 'MOBIUS_LIST_BEGIN\\n'; LC_ALL=C ls -la -n "@ + validation::quote(directory@),
{
    let q = validation::quote_remote(directory);
    text::concat_strs("printf 'MOBIUS_LIST_BEGIN\\n'; LC_ALL=C ls -la -n ", q.as_str())
}

/// The lines after the list marker (none when it is missing), joined by
/// newlines.
pub open spec fn listing_after_marker(stdout: Seq<char>) -> Seq<char> {
    let raw = text::lines(stdout);
    match text::first_index(text::trimmed_lines(stdout), "MOBIUS_LIST_BEGIN"@) {
        Some(m) => text::join(raw.skip(m + 1), seq!['\n']),
        None => Seq::empty(),
    }
}

pub fn listing_text(stdout: &str) -> (r: String)
    ensures
        r@ == listing_after_marker(stdout@),
{
    let raw = text::lines_of(stdout);
    let trimmed = text::trimmed_lines_of(stdout);
    let marker = text::chars_of("MOBIUS_LIST_BEGIN");
    let m = match text::first_index_exec(&trimmed, &marker) {
        None => {
            return String::new();
        },
        Some(m) => m,
    };
    proof {
        text::lemma_first_index_bounds(text::views(trimmed@), marker@);
    }
    assert(text::views(trimmed@).len() == trimmed@.len());
    assert(text::views(raw@).len() == raw@.len());
    let n = raw.len();
    let mut rest: Vec<Vec<char>> = Vec::new();
    let mut i: usize = m + 1;
    while i < n
        invariant
            m + 1 <= i <= raw@.len(),
            n == raw@.len(),
            text::views(rest@) == text::views(raw@).subrange(m + 1, i as int),
        decreases raw@.len() - i,
    {
        let ghost before = text::views(rest@);
        let c = text::copy_chars(&raw[i]);
        assert(c@ == text::views(raw@)[i as int]);
        rest.push(c);
        assert(text::views(rest@) =~= before.push(c@));
        assert(text::views(rest@) =~= text::views(raw@).subrange(m + 1, i + 1));
        i = i + 1;
    }
    assert(text::views(raw@).subrange(m + 1, raw@.len() as int) =~= text::views(raw@).skip(m + 1));
    let nl: Vec<char> = vec!['\n'];
    assert(nl@ =~= seq!['\n']);
    let joined = text::join_exec(&rest, &nl);
    text::string_of(&joined)
}


// ---------------------------------------------------------------------------
// File operations
// ---------------------------------------------------------------------------

/// An upload may create a file or, when asked, replace a regular file;
/// never through a link or onto anything else.
pub fn check_upload_target(kind: RemoteEntryKind, overwrite: bool) -> (r: Result<(), ApiError>)
    ensures
        (kind == RemoteEntryKind::Missing || (kind == RemoteEntryKind::File && overwrite)) ==> r is Ok,
        kind == RemoteEntryKind::File && !overwrite ==> (r matches Err(e) && is_error(
            e,
            "remote_file_exists"@,
            "The remote file already exists; enable overwrite to replace it"@,
        )),
        kind == RemoteEntryKind::Link ==> (r matches Err(e) && is_error(
            e,
            "unsafe_remote_link"@,
            "Refusing to upload through a remote symbolic link"@,
        )),
        (kind == RemoteEntryKind::Directory || kind == RemoteEntryKind::Other) ==> (r matches Err(e)
            && is_error(
            e,
            "invalid_remote_target"@,
            "The remote destination is not a regular file target"@,
        )),
{
    match kind {
        RemoteEntryKind::Missing => Ok(()),
        RemoteEntryKind::File => if overwrite {
            Ok(())
        } else {
            Err(
                ApiError::new(
                    "remote_file_exists",
                    "The remote file already exists; enable overwrite to replace it",
                ),
            )
        },
        RemoteEntryKind::Link => Err(
            ApiError::new("unsafe_remote_link", "Refusing to upload through a remote symbolic link"),
        ),
        _ => Err(
            ApiError::new("invalid_remote_target", "The remote destination is not a regular file target"),
        ),
    }
}

/// A download reads a regular file only, never through a link.
pub fn check_download_source(kind: RemoteEntryKind) -> (r: Result<(), ApiError>)
    ensures
        kind == RemoteEntryKind::File ==> r is Ok,
        kind == RemoteEntryKind::Link ==> (r matches Err(e) && is_error(
            e,
            "unsafe_remote_link"@,
            "Refusing to download through a remote symbolic link"@,
        )),
        (kind != RemoteEntryKind::File && kind != RemoteEntryKind::Link) ==> (r matches Err(e)
            && is_error(e, "remote_file_not_found"@, "The remote path is not a regular file"@)),
{
    match kind {
        RemoteEntryKind::File => Ok(()),
        RemoteEntryKind::Link => Err(
            ApiError::new("unsafe_remote_link", "Refusing to download through a remote symbolic link"),
        ),
        _ => Err(ApiError::new("remote_file_not_found", "The remote path is not a regular file")),
    }
}

/// A directory is created only where nothing exists yet.
pub fn check_mkdir_target(kind: RemoteEntryKind) -> (r: Result<(), ApiError>)
    ensures
        kind == RemoteEntryKind::Missing ==> r is Ok,
        kind != RemoteEntryKind::Missing ==> (r matches Err(e) && is_error(
            e,
            "remote_path_exists"@,
            "The remote path already exists"@,
        )),
{
    if kind != RemoteEntryKind::Missing {
        return Err(ApiError::new("remote_path_exists", "The remote path already exists"));
    }
    Ok(())
}

/// Deleting needs something to delete, and a directory needs `recursive`.
pub fn check_delete_target(kind: RemoteEntryKind, recursive: bool) -> (r: Result<(), ApiError>)
    ensures
        kind == RemoteEntryKind::Missing ==> (r matches Err(e) && is_error(
            e,
            "remote_path_not_found"@,
            "The remote path does not exist"@,
        )),
        kind == RemoteEntryKind::Directory && !recursive ==> (r matches Err(e) && is_error(
            e,
            "recursive_delete_required"@,
            "Deleting a directory requires recursive=true"@,
        )),
        kind != RemoteEntryKind::Missing && !(kind == RemoteEntryKind::Directory && !recursive)
            ==> r is Ok,
{
    if kind == RemoteEntryKind::Missing {
        return Err(ApiError::new("remote_path_not_found", "The remote path does not exist"));
    }
    if kind == RemoteEntryKind::Directory && !recursive {
        return Err(
            ApiError::new("recursive_delete_required", "Deleting a directory requires recursive=true"),
        );
    }
    Ok(())
}

/// Where an upload goes: into `requested` when it is a directory (the
/// local file's name kept), else to `requested` itself. Gives the directory
/// whose boundary is checked and the target path.
pub open spec fn upload_dest(requested: Seq<char>, kind: RemoteEntryKind, source_name: Seq<char>) -> Result<
    (Seq<char>, Seq<char>),
    (Seq<char>, Seq<char>),
> {
    if kind == RemoteEntryKind::Directory {
        if remote_name_ok(source_name) {
            Ok((requested, joined_path(requested, source_name)))
        } else {
            Err(("invalid_remote_name"@, "Remote item name is invalid"@))
        }
    } else {
        match parent_and_name(requested) {
            Err(e) => Err(e),
            Ok((parent, name)) => Ok((parent, joined_path(parent, name))),
        }
    }
}

pub fn upload_destination(requested: &str, kind: RemoteEntryKind, source_name: &str) -> (r: Result<
    (String, String),
    ApiError,
>)
    ensures
        match upload_dest(requested@, kind, source_name@) {
            Ok((dir, target)) => r matches Ok((d, t)) && d@ == dir && t@ == target,
            Err((code, message)) => r matches Err(e) && is_error(e, code, message),
        },
{
    if kind == RemoteEntryKind::Directory {
        let target = match join_remote_path(requested, source_name) {
            Ok(t) => t,
            Err(e) => {
                return Err(e);
            },
        };
        return Ok((text::copy_str(requested), target));
    }
    let (parent, name) = match remote_parent_and_name(requested) {
        Ok(pair) => pair,
        Err(e) => {
            return Err(e);
        },
    };
    let target = match join_remote_path(parent.as_str(), name.as_str()) {
        Ok(t) => t,
        Err(e) => {
            return Err(e);
        },
    };
    Ok((parent, target))
}

/// The arguments of an upload with `scp`.
pub fn scp_upload_args(connection: &IosSshConnection, local_source: &str, target: &str) -> (r: Result<
    Vec<String>,
    ApiError,
>)
    ensures
        match scp_spec(*connection, target@) {
            Ok(s) => r matches Ok(v) && text::string_views(v@) == scp_args(*connection).push(
                local_source@,
            ).push(s),
            Err((code, message)) => r matches Err(e) && is_error(e, code, message),
        },
{
    let remote = match scp_remote_spec(connection, target) {
        Ok(s) => s,
        Err(e) => {
            return Err(e);
        },
    };
    let mut args = scp_base_args(connection);
    text::push_str(&mut args, local_source);
    text::push_string(&mut args, remote);
    Ok(args)
}

/// The arguments of a download with `scp`.
pub fn scp_download_args(connection: &IosSshConnection, remote_source: &str, destination: &str) -> (r:
    Result<Vec<String>, ApiError>)
    ensures
        match scp_spec(*connection, remote_source@) {
            Ok(s) => r matches Ok(v) && text::string_views(v@) == scp_args(*connection).push(s).push(
                destination@,
            ),
            Err((code, message)) => r matches Err(e) && is_error(e, code, message),
        },
{
    let remote = match scp_remote_spec(connection, remote_source) {
        Ok(s) => s,
        Err(e) => {
            return Err(e);
        },
    };
    let mut args = scp_base_args(connection);
    text::push_string(&mut args, remote);
    text::push_str(&mut args, destination);
    Ok(args)
}

// ---------------------------------------------------------------------------
// Starting and stopping sessions
// ---------------------------------------------------------------------------

/// The user name of a new session: `root` unless one is given.
pub fn session_username(username: Option<String>) -> (r: Result<String, ApiError>)
    ensures
        ({
            let u = match username {
                Some(u) => u@,
                None => "root"@,
            };
            &&& username_ok(u) ==> (r matches Ok(s) && s@ == u)
            &&& !username_ok(u) ==> (r matches Err(e) && is_error(
                e,
                "invalid_ssh_username"@,
                "SSH username contains unsupported characters"@,
            ))
        }),
{
    let u = match username {
        Some(u) => u,
        None => text::copy_str("root"),
    };
    match validate_username(u.as_str()) {
        Ok(_) => Ok(u),
        Err(e) => Err(e),
    }
}

/// The authentication of a new session: a valid password, or the path of
/// a private key (which the caller resolves and checks on disk).
pub fn session_authentication(
    mode: IosSshAuthMode,
    password: Option<SecretString>,
    private_key_path: Option<String>,
) -> (r: Result<IosSshAuthentication, ApiError>)
    ensures
        mode == IosSshAuthMode::Password ==> match password {
            None => r matches Err(e) && is_error(
                e,
                "missing_ssh_password"@,
                "Enter the SSH password for password authentication"@,
            ),
            Some(p) => if password_ok(p.secret()) {
                r matches Ok(IosSshAuthentication::Password(q)) && q.secret() == p.secret()
            } else {
                r matches Err(e) && is_error(
                    e,
                    "invalid_ssh_password"@,
                    "The SSH password must be 1 to 1024 characters and cannot contain line breaks"@,
                )
            },
        },
        mode == IosSshAuthMode::PrivateKey ==> match private_key_path {
            None => r matches Err(e) && is_error(
                e,
                "missing_private_key"@,
                "Select an SSH private key for private-key authentication"@,
            ),
            Some(k) => r matches Ok(IosSshAuthentication::PrivateKey(q)) && q@ == k@,
        },
{
    match mode {
        IosSshAuthMode::Password => {
            let p = match password {
                Some(p) => p,
                None => {
                    return Err(
                        ApiError::new(
                            "missing_ssh_password",
                            "Enter the SSH password for password authentication",
                        ),
                    );
                },
            };
            match validate_password(p.expose_secret()) {
                Ok(()) => {},
                Err(e) => {
                    return Err(e);
                },
            }
            Ok(IosSshAuthentication::Password(p))
        },
        IosSshAuthMode::PrivateKey => {
            match private_key_path {
                Some(k) => Ok(IosSshAuthentication::PrivateKey(k)),
                None => Err(
                    ApiError::new(
                        "missing_private_key",
                        "Select an SSH private key for private-key authentication",
                    ),
                ),
            }
        },
    }
}

/// A private key is a non-empty regular file of at most 1 MiB.
pub fn check_private_key_file(is_file: bool, len: u64) -> (r: Result<(), ApiError>)
    ensures
        (is_file && 0 < len <= 1048576) ==> r is Ok,
        !(is_file && 0 < len <= 1048576) ==> (r matches Err(e) && is_error(
            e,
            "invalid_private_key"@,
            "The selected private key must be a non-empty regular file no larger than 1 MiB"@,
        )),
{
    if !is_file || len == 0 || len > 1024 * 1024 {
        return Err(
            ApiError::new(
                "invalid_private_key",
                "The selected private key must be a non-empty regular file no larger than 1 MiB",
            ),
        );
    }
    Ok(())
}

/// The device port of a USB session (22 unless given), after checking the
/// device identifier.
pub fn usb_device_port(udid: &str, device_port: Option<u16>) -> (r: Result<u16, ApiError>)
    ensures
        match validation::serial_check(udid@) {
            Err((code, message)) => r matches Err(e) && is_error(e, code, message),
            Ok(()) => {
                let p = match device_port {
                    Some(p) => p,
                    None => DEFAULT_SSH_PORT,
                };
                &&& p != 0 ==> r == Ok::<u16, ApiError>(p)
                &&& p == 0 ==> (r matches Err(e) && is_error(
                    e,
                    "invalid_ssh_port"@,
                    "device"@ + " port must be between 1 and 65535"@,
                ))
            },
        },
{
    match validation::serial(udid) {
        Ok(_) => {},
        Err(e) => {
            return Err(e);
        },
    }
    let p = match device_port {
        Some(p) => p,
        None => DEFAULT_SSH_PORT,
    };
    valid_port(p, "device")
}

/// The host-key alias of a USB session, so that the changing loopback port
/// does not split the device's known-hosts entry.
pub fn usb_host_key_alias(udid: &str) -> (r: String)
    ensures
        r@ == "mobius-usb-"@ + udid@,
{
    text::concat_strs("mobius-usb-", udid)
}

/// The arguments of the `iproxy` process that carries a USB session.
pub fn iproxy_ssh_args(udid: &str, host_port: u16, device_port: u16) -> (r: Vec<String>)
    ensures
        text::string_views(r@) == seq![
            "-u"@,
            udid@,
            "-l"@,
            "-s"@,
            "127.0.0.1"@,
            text::decimal(host_port as nat) + seq![':'] + text::decimal(device_port as nat),
        ],
{
    let mut args: Vec<String> = Vec::new();
    text::push_str(&mut args, "-u");
    text::push_str(&mut args, udid);
    text::push_str(&mut args, "-l");
    text::push_str(&mut args, "-s");
    text::push_str(&mut args, "127.0.0.1");
    let mut ports = text::decimal_exec(host_port as u64);
    ports.push(':');
    text::append(&mut ports, &text::decimal_exec(device_port as u64));
    assert(ports@ =~= text::decimal(host_port as nat) + seq![':'] + text::decimal(device_port as nat));
    text::push_string(&mut args, text::string_of(&ports));
    assert(text::string_views(args@) =~= seq![
        "-u"@,
        udid@,
        "-l"@,
        "-s"@,
        "127.0.0.1"@,
        text::decimal(host_port as nat) + seq![':'] + text::decimal(device_port as nat),
    ]);
    args
}

/// The address and port of a LAN session (22 unless given).
pub fn lan_endpoint(parsed: Option<IpAddress>, port: Option<u16>) -> (r: Result<(IpAddress, u16), ApiError>)
    ensures
        match parsed {
            None => r matches Err(e) && is_error(
                e,
                "invalid_ssh_host"@,
                "LAN SSH host must be a private or link-local IP address"@,
            ),
            Some(ip) => if !lan_host_allowed(ip) {
                r matches Err(e) && is_error(
                    e,
                    "non_local_ssh_host"@,
                    "LAN SSH is limited to private, loopback, or link-local addresses"@,
                )
            } else {
                let p = match port {
                    Some(p) => p,
                    None => DEFAULT_SSH_PORT,
                };
                &&& p != 0 ==> r == Ok::<(IpAddress, u16), ApiError>((ip, p))
                &&& p == 0 ==> (r matches Err(e) && is_error(
                    e,
                    "invalid_ssh_port"@,
                    "SSH"@ + " port must be between 1 and 65535"@,
                ))
            },
        },
{
    let ip = match validate_lan_host(parsed) {
        Ok(ip) => ip,
        Err(e) => {
            return Err(e);
        },
    };
    let p = match port {
        Some(p) => p,
        None => DEFAULT_SSH_PORT,
    };
    match valid_port(p, "SSH") {
        Ok(p) => Ok((ip, p)),
        Err(e) => Err(e),
    }
}

/// The status of the USB tunnel of a new session: present only when its
/// process, device and device port are all known.
pub fn tunnel_status(pid: Option<u32>, udid: Option<String>, device_port: Option<u16>, host_port: u16) -> (r:
    Option<IosSshTunnelStatus>)
    ensures
        match (pid, udid, device_port) {
            (Some(p), Some(u), Some(d)) => r matches Some(t) && t.active && t.pid == p && t.udid@ == u@
                && t.bind_address@ == "127.0.0.1"@ && t.host_port == host_port && t.device_port == d,
            _ => r is None,
        },
{
    match (pid, udid, device_port) {
        (Some(p), Some(u), Some(d)) => Some(
            IosSshTunnelStatus {
                active: true,
                pid: p,
                udid: u,
                bind_address: text::copy_str("127.0.0.1"),
                host_port,
                device_port: d,
            },
        ),
        _ => None,
    }
}

/// The reply to a started session.
pub fn session_response(
    session_id: String,
    mode: &str,
    connection: &IosSshConnection,
    tunnel: Option<IosSshTunnelStatus>,
) -> (r: IosSshSession)
    ensures
        r.session_id@ == session_id@,
        r.mode@ == mode@,
        r.connected && r.jailbreak_confirmed,
        r.ssh_host@ == connection.ssh_host@,
        r.ssh_port == connection.ssh_port,
        r.device_port == connection.device_port,
        r.username@ == connection.username@,
        r.auth_mode == auth_mode_of(connection.authentication),
        text::string_views(r.allowed_roots@) == text::string_views(connection.configured_roots@),
        text::opt_view(r.server_system) == text::opt_view(connection.server_system),
        r.remote_uid == connection.remote_uid,
        r.tunnel == tunnel,
{
    IosSshSession {
        session_id,
        mode: text::copy_str(mode),
        connected: true,
        jailbreak_confirmed: true,
        ssh_host: text::copy_str(connection.ssh_host.as_str()),
        ssh_port: connection.ssh_port,
        device_port: connection.device_port,
        username: text::copy_str(connection.username.as_str()),
        auth_mode: connection.authentication.mode(),
        allowed_roots: text::copy_strings(&connection.configured_roots),
        server_system: match &connection.server_system {
            Some(s) => Some(text::copy_str(s.as_str())),
            None => None,
        },
        remote_uid: connection.remote_uid,
        tunnel,
    }
}

/// The reply to a successful connection test.
pub fn connection_test_result(connection: &IosSshConnection, probe: ProbeResult, tunnel_active: Option<
    bool,
>) -> (r: IosSshConnectionResult)
    ensures
        r.success && r.connected && r.jailbreak_confirmed,
        r.message@ == "SSH authentication succeeded"@,
        r.auth_mode == auth_mode_of(connection.authentication),
        text::opt_view(r.server_system) == text::opt_view(probe.server_system),
        r.remote_uid == probe.remote_uid,
        r.tunnel_active == tunnel_active,
{
    IosSshConnectionResult {
        success: true,
        message: text::copy_str("SSH authentication succeeded"),
        connected: true,
        jailbreak_confirmed: true,
        auth_mode: connection.authentication.mode(),
        server_system: probe.server_system,
        remote_uid: probe.remote_uid,
        tunnel_active,
    }
}

/// The message of a closed session.
pub fn stop_session_message(warnings: &[String], tunnel_stopped: bool) -> (r: String)
    ensures
        warnings@.len() > 0 ==> r@ == "SSH session closed with cleanup warnings: "@ + text::join(
            text::string_views(warnings@),
            "; "@,
        ),
        warnings@.len() == 0 && tunnel_stopped ==> r@
            == "SSH session, managed iOS resources, port tunnels, and USB tunnel closed"@,
        warnings@.len() == 0 && !tunnel_stopped ==> r@ == "SSH session and managed iOS resources closed"@,
{
    if warnings.len() > 0 {
        let joined = text::join_strings(warnings, "; ");
        return text::concat_strs("SSH session closed with cleanup warnings: ", joined.as_str());
    }
    if tunnel_stopped {
        text::copy_str("SSH session, managed iOS resources, port tunnels, and USB tunnel closed")
    } else {
        text::copy_str("SSH session and managed iOS resources closed")
    }
}


// ---------------------------------------------------------------------------
// Local files
// ---------------------------------------------------------------------------

/// An upload reads a regular local file.
pub fn check_upload_source(is_file: bool) -> (r: Result<(), ApiError>)
    ensures
        is_file ==> r is Ok,
        !is_file ==> (r matches Err(e) && is_error(
            e,
            "invalid_local_file"@,
            "Upload source must be a regular local file"@,
        )),
{
    if !is_file {
        return Err(ApiError::new("invalid_local_file", "Upload source must be a regular local file"));
    }
    Ok(())
}

/// What is known on disk of a download destination.
#[derive(Debug, Clone)]
pub struct LocalDestination {
    /// The display form of the parent directory, `None` when there is none.
    pub parent: Option<String>,
    pub parent_is_dir: bool,
    pub is_symlink: bool,
    pub present: bool,
    pub is_dir: bool,
}

/// A download writes into an existing directory, never through a link or
/// onto a directory, and replaces a file only when asked.
pub fn check_local_destination(d: &LocalDestination, overwrite: bool) -> (r: Result<(), ApiError>)
    ensures
        d.parent is None ==> (r matches Err(e) && is_error(
            e,
            "invalid_local_path"@,
            "The local destination has no parent directory"@,
        )),
        d.parent is Some && !d.parent_is_dir ==> (r matches Err(e) && is_error(
            e,
            "local_directory_not_found"@,
            "Destination directory does not exist: "@ + d.parent->0@,
        )),
        d.parent is Some && d.parent_is_dir && d.is_symlink ==> (r matches Err(e) && is_error(
            e,
            "unsafe_local_link"@,
            "Refusing to overwrite a local symbolic link"@,
        )),
        d.parent is Some && d.parent_is_dir && !d.is_symlink && d.present && d.is_dir ==> (r matches Err(
            e,
        ) && is_error(e, "invalid_local_destination"@, "The resolved local destination is a directory"@)),
        d.parent is Some && d.parent_is_dir && !d.is_symlink && d.present && !d.is_dir && !overwrite
            ==> (r matches Err(e) && is_error(
            e,
            "local_file_exists"@,
            "The local file already exists; enable overwrite to replace it"@,
        )),
        d.parent is Some && d.parent_is_dir && !d.is_symlink && !(d.present && (d.is_dir || !overwrite))
            ==> r is Ok,
{
    let parent = match &d.parent {
        Some(p) => p,
        None => {
            return Err(ApiError::new("invalid_local_path", "The local destination has no parent directory"));
        },
    };
    if !d.parent_is_dir {
        return Err(
            ApiError::with_message(
                "local_directory_not_found",
                text::concat_strs("Destination directory does not exist: ", parent.as_str()),
            ),
        );
    }
    if d.is_symlink {
        return Err(ApiError::new("unsafe_local_link", "Refusing to overwrite a local symbolic link"));
    }
    if d.present && d.is_dir {
        return Err(
            ApiError::new("invalid_local_destination", "The resolved local destination is a directory"),
        );
    }
    if d.present && !overwrite {
        return Err(
            ApiError::new(
                "local_file_exists",
                "The local file already exists; enable overwrite to replace it",
            ),
        );
    }
    Ok(())
}

} // verus!
