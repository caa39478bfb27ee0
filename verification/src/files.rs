//! The Android file browser and the Android global HTTP proxy: the device
//! commands, how their answers are read, and when a proxy may be replaced,
//! restored or left alone.
use crate::error::{is_error, ApiError, OperationResult};
use crate::text;
use crate::validation;
use vstd::prelude::*;

verus! {

// ---------------------------------------------------------------------------
// Directory listing and file transfer commands
// ---------------------------------------------------------------------------

/// The directory a listing describes: the root, or the path without
/// trailing slashes.
pub open spec fn listing_directory_spec(path: Seq<char>) -> Seq<char> {
    if path == seq!['/'] {
        seq!['/']
    } else {
        text::trim_end_char(path, '/')
    }
}

pub fn listing_directory(path: &str) -> (r: String)
    ensures
        r@ == listing_directory_spec(path@),
{
    let cs = text::chars_of(path);
    if cs.len() == 1 && cs[0] == '/' {
        assert(cs@ =~= seq!['/']);
        text::copy_str(path)
    } else {
        proof {
            if cs@ == seq!['/'] {
                assert(cs@[0] == '/');
            }
        }
        let t = text::trim_end_char_exec(&cs, '/');
        text::string_of(&t)
    }
}

/// The operand handed to `ls`: a directory path with one trailing slash, so
/// that a symbolic link to a directory (such as `/sdcard`) lists its target.
pub open spec fn listing_operand(path: Seq<char>) -> Seq<char> {
    if path == seq!['/'] {
        seq!['/']
    } else {
        text::trim_end_char(path, '/').push('/')
    }
}

pub fn directory_listing_operand(path: &str) -> (r: String)
    ensures
        r@ == listing_operand(path@),
{
    let cs = text::chars_of(path);
    if cs.len() == 1 && cs[0] == '/' {
        assert(cs@ =~= seq!['/']);
        text::copy_str(path)
    } else {
        proof {
            if cs@ == seq!['/'] {
                assert(cs@[0] == '/');
            }
        }
        let mut t = text::trim_end_char_exec(&cs, '/');
        t.push('/');
        text::string_of(&t)
    }
}

/// The device command that lists a directory.
pub fn listing_command(directory: &str) -> (r: String)
    ensures
        r@ == "LC_ALL=C ls -la -n -- "@ + validation::quote(listing_operand(directory@)),
{
    let operand = directory_listing_operand(directory);
    let q = validation::quote_remote(operand.as_str());
    text::concat_strs("LC_ALL=C ls -la -n -- ", q.as_str())
}

/// The last path component of a remote path, ignoring trailing slashes.
pub open spec fn remote_name(path: Seq<char>) -> Seq<char> {
    let t = text::trim_end_char(path, '/');
    match text::rsplit_once(t, seq!['/']) {
        Some((_, name)) => name,
        None => t,
    }
}

/// The file name a pulled file keeps when the destination is a directory.
pub fn remote_file_name(remote_path: &str) -> (r: Result<String, ApiError>)
    ensures
        remote_name(remote_path@).len() > 0 ==> (r matches Ok(n) && n@ == remote_name(remote_path@)),
        remote_name(remote_path@).len() == 0 ==> (r matches Err(e) && is_error(
            e,
            "invalid_remote_path"@,
            "Remote file name is missing"@,
        )),
{
    let cs = text::chars_of(remote_path);
    let t = text::trim_end_char_exec(&cs, '/');
    let slash: Vec<char> = vec!['/'];
    assert(slash@ =~= seq!['/']);
    let name = match text::rsplit_once_exec(&t, &slash) {
        Some((_, n)) => n,
        None => t,
    };
    if name.len() == 0 {
        return Err(ApiError::new("invalid_remote_path", "Remote file name is missing"));
    }
    Ok(text::string_of(&name))
}

/// The arguments of `adb pull`.
pub fn pull_arguments(serial: &str, remote_path: &str, local_path: &str) -> (r: Vec<String>)
    ensures
        text::string_views(r@) == seq!["-s"@, serial@, "pull"@, remote_path@, local_path@],
{
    let mut args: Vec<String> = Vec::new();
    text::push_str(&mut args, "-s");
    text::push_str(&mut args, serial);
    text::push_str(&mut args, "pull");
    text::push_str(&mut args, remote_path);
    text::push_str(&mut args, local_path);
    assert(text::string_views(args@) =~= seq![
        "-s"@,
        serial@,
        "pull"@,
        remote_path@,
        local_path@,
    ]);
    args
}

/// The arguments of `adb push`.
pub fn push_arguments(serial: &str, source: &str, target: &str) -> (r: Vec<String>)
    ensures
        text::string_views(r@) == seq!["-s"@, serial@, "push"@, source@, target@],
{
    let mut args: Vec<String> = Vec::new();
    text::push_str(&mut args, "-s");
    text::push_str(&mut args, serial);
    text::push_str(&mut args, "push");
    text::push_str(&mut args, source);
    text::push_str(&mut args, target);
    assert(text::string_views(args@) =~= seq!["-s"@, serial@, "push"@, source@, target@]);
    args
}

/// The local destination of a pull may be written: it is not a symbolic
/// link, not a directory, and is replaced only when overwriting was asked for.
pub fn check_pull_destination(link: bool, present: bool, directory: bool, overwrite: bool) -> (r:
    Result<(), ApiError>)
    ensures
        link ==> (r matches Err(e) && is_error(
            e,
            "unsafe_local_link"@,
            "Refusing to overwrite a local symbolic link"@,
        )),
        (!link && present && directory) ==> (r matches Err(e) && is_error(
            e,
            "invalid_local_destination"@,
            "The resolved local destination is a directory"@,
        )),
        (!link && present && !directory && !overwrite) ==> (r matches Err(e) && is_error(
            e,
            "local_file_exists"@,
            "The local destination already exists; enable overwrite to replace it"@,
        )),
        (!link && (!present || (!directory && overwrite))) ==> r is Ok,
{
    if link {
        return Err(ApiError::new("unsafe_local_link", "Refusing to overwrite a local symbolic link"));
    }
    if present && directory {
        return Err(
            ApiError::new(
                "invalid_local_destination",
                "The resolved local destination is a directory",
            ),
        );
    }
    if present && !overwrite {
        return Err(
            ApiError::new(
                "local_file_exists",
                "The local destination already exists; enable overwrite to replace it",
            ),
        );
    }
    Ok(())
}

/// The device command that tells whether a push target is a directory, an
/// existing entry, or missing.
pub fn push_probe_command(remote_path: &str) -> (r: String)
    ensures
        r@ == "if [ -d "@ + validation::quote(remote_path@) + " ]; then printf directory; elif [ -e "@
            + validation::quote(remote_path@) + " ] || [ -L "@ + validation::quote(remote_path@)
            + " ]; then printf exists; else printf missing; fi"@,
{
    let q = validation::quote_remote(remote_path);
    let mut v = text::chars_of("if [ -d ");
    text::append_str(&mut v, q.as_str());
    text::append_str(&mut v, " ]; then printf directory; elif [ -e ");
    text::append_str(&mut v, q.as_str());
    text::append_str(&mut v, " ] || [ -L ");
    text::append_str(&mut v, q.as_str());
    text::append_str(&mut v, " ]; then printf exists; else printf missing; fi");
    text::string_of(&v)
}

/// Where a pushed file lands: inside the target when it is a directory.
pub open spec fn push_target_spec(remote: Seq<char>, kind: Seq<char>, source_name: Seq<char>) -> Seq<
    char,
> {
    if kind == "directory"@ {
        text::trim_end_char(remote, '/') + seq!['/'] + source_name
    } else {
        remote
    }
}

pub fn push_target(remote_path: &str, probed_kind: &str, source_name: &str) -> (r: String)
    ensures
        r@ == push_target_spec(remote_path@, probed_kind@, source_name@),
{
    if text::eq_str_str(probed_kind, "directory") {
        let cs = text::chars_of(remote_path);
        let mut t = text::trim_end_char_exec(&cs, '/');
        t.push('/');
        text::append_str(&mut t, source_name);
        text::string_of(&t)
    } else {
        text::copy_str(remote_path)
    }
}

/// The device command that prints `1` when a path exists.
pub fn exists_command(remote_path: &str) -> (r: String)
    ensures
        r@ == "if [ -e "@ + validation::quote(remote_path@) + " ] || [ -L "@ + validation::quote(
            remote_path@,
        ) + " ]; then printf 1; else printf 0; fi"@,
{
    let q = validation::quote_remote(remote_path);
    let mut v = text::chars_of("if [ -e ");
    text::append_str(&mut v, q.as_str());
    text::append_str(&mut v, " ] || [ -L ");
    text::append_str(&mut v, q.as_str());
    text::append_str(&mut v, " ]; then printf 1; else printf 0; fi");
    text::string_of(&v)
}

/// A push without overwrite is refused when the device reported the target.
pub fn check_push_overwrite(overwrite: bool, exists_stdout: &str) -> (r: Result<(), ApiError>)
    ensures
        (!overwrite && exists_stdout@ == "1"@) ==> (r matches Err(e) && is_error(
            e,
            "remote_file_exists"@,
            "The remote file already exists; enable overwrite to replace it"@,
        )),
        !(!overwrite && exists_stdout@ == "1"@) ==> r is Ok,
{
    if !overwrite && text::eq_str_str(exists_stdout, "1") {
        return Err(
            ApiError::new(
                "remote_file_exists",
                "The remote file already exists; enable overwrite to replace it",
            ),
        );
    }
    Ok(())
}

/// The device command that creates a directory and its parents.
pub fn mkdir_command(path: &str) -> (r: String)
    ensures
        r@ == "mkdir -p -- "@ + validation::quote(path@),
{
    let q = validation::quote_remote(path);
    text::concat_strs("mkdir -p -- ", q.as_str())
}

/// The device command that deletes an entry, recursively when asked.
pub fn delete_command(path: &str, recursive: bool) -> (r: String)
    ensures
        r@ == (if recursive {
            "rm -rf -- "@
        } else {
            "rm -f -- "@
        }) + validation::quote(path@),
{
    let q = validation::quote_remote(path);
    if recursive {
        text::concat_strs("rm -rf -- ", q.as_str())
    } else {
        text::concat_strs("rm -f -- ", q.as_str())
    }
}

// ---------------------------------------------------------------------------
// The global HTTP proxy
// ---------------------------------------------------------------------------

/// The five global settings that make up Android's proxy state, as read
/// with `settings get global`; `None` where Android answered `null`.
#[derive(Debug, Clone, Default)]
pub struct AndroidProxySettings {
    /// The compatibility trigger watched by the connectivity service.
    pub http_proxy: Option<String>,
    pub host: Option<String>,
    pub port: Option<String>,
    pub exclusion_list: Option<String>,
    pub pac_url: Option<String>,
}

/// The proxy state Mobius replaced, and the state it configured.
#[derive(Debug, Clone)]
pub struct ManagedProxy {
    pub previous: AndroidProxySettings,
    pub configured: AndroidProxySettings,
}

/// A setting that holds a value: present, not empty, and not `null`.
pub open spec fn setting(o: Option<String>) -> Option<Seq<char>> {
    match o {
        Some(v) => if v@.len() > 0 && v@ != "null"@ {
            Some(v@)
        } else {
            None
        },
        None => None,
    }
}

pub fn nonempty_setting(value: &Option<String>) -> (r: Option<String>)
    ensures
        text::opt_view(r) == setting(*value),
{
    match value {
        Some(v) => {
            if v.as_str().is_empty() || text::eq_str_str(v.as_str(), "null") {
                None
            } else {
                Some(text::copy_string(v))
            }
        },
        None => None,
    }
}

/// Two readings of the proxy state are identical.
pub open spec fn same_settings(a: AndroidProxySettings, b: AndroidProxySettings) -> bool {
    &&& text::opt_view(a.http_proxy) == text::opt_view(b.http_proxy)
    &&& text::opt_view(a.host) == text::opt_view(b.host)
    &&& text::opt_view(a.port) == text::opt_view(b.port)
    &&& text::opt_view(a.exclusion_list) == text::opt_view(b.exclusion_list)
    &&& text::opt_view(a.pac_url) == text::opt_view(b.pac_url)
}

fn opt_eq(a: &Option<String>, b: &Option<String>) -> (r: bool)
    ensures
        r == (text::opt_view(*a) == text::opt_view(*b)),
{
    match (a, b) {
        (Some(x), Some(y)) => text::eq_str_str(x.as_str(), y.as_str()),
        (None, None) => true,
        _ => false,
    }
}

fn opt_copy(a: &Option<String>) -> (r: Option<String>)
    ensures
        text::opt_view(r) == text::opt_view(*a),
{
    match a {
        Some(x) => Some(text::copy_string(x)),
        None => None,
    }
}

/// Strips `[` and `]` from both ends.
pub open spec fn trim_brackets_start(s: Seq<char>) -> Seq<char>
    decreases s.len(),
{
    if s.len() > 0 && (s[0] == '[' || s[0] == ']') {
        trim_brackets_start(s.drop_first())
    } else {
        s
    }
}

pub open spec fn trim_brackets_end(s: Seq<char>) -> Seq<char>
    decreases s.len(),
{
    if s.len() > 0 && (s.last() == '[' || s.last() == ']') {
        trim_brackets_end(s.drop_last())
    } else {
        s
    }
}

pub open spec fn trim_brackets(s: Seq<char>) -> Seq<char> {
    trim_brackets_end(trim_brackets_start(s))
}

fn trim_brackets_start_exec(s: &[char]) -> (r: Vec<char>)
    ensures
        r@ == trim_brackets_start(s@),
{
    let mut i: usize = 0;
    assert(s@.skip(0) =~= s@);
    while i < s.len() && (s[i] == '[' || s[i] == ']')
        invariant
            i <= s@.len(),
            trim_brackets_start(s@) == trim_brackets_start(s@.skip(i as int)),
        decreases s@.len() - i,
    {
        assert(s@.skip(i as int).drop_first() =~= s@.skip(i + 1));
        i = i + 1;
    }
    text::slice_chars(s, i, s.len())
}

fn trim_brackets_end_exec(a: &[char]) -> (r: Vec<char>)
    ensures
        r@ == trim_brackets_end(a@),
{
    let mut n: usize = a.len();
    assert(a@.take(n as int) =~= a@);
    while n > 0 && (a[n - 1] == '[' || a[n - 1] == ']')
        invariant
            n <= a@.len(),
            trim_brackets_end(a@) == trim_brackets_end(a@.take(n as int)),
        decreases n,
    {
        assert(a@.take(n as int).drop_last() =~= a@.take(n - 1));
        n = n - 1;
    }
    let r = text::slice_chars(a, 0, n);
    assert(r@ =~= a@.take(n as int));
    r
}

fn trim_brackets_exec(s: &[char]) -> (r: Vec<char>)
    ensures
        r@ == trim_brackets(s@),
{
    let a = trim_brackets_start_exec(s);
    trim_brackets_end_exec(&a)
}

/// A proxy is in effect: the trigger holds an endpoint other than `:0`, or a
/// host or PAC address is set.
pub open spec fn effective(s: AndroidProxySettings) -> bool {
    ||| (setting(s.http_proxy) matches Some(v) && v != ":0"@)
    ||| setting(s.host) is Some
    ||| setting(s.pac_url) is Some
}

/// A port field that holds a port number other than zero.
pub open spec fn port_value(p: Option<String>) -> Option<nat> {
    match p {
        Some(v) => match text::parse_uint(v@, 65535) {
            Some(n) => if n != 0 {
                Some(n)
            } else {
                None
            },
            None => None,
        },
        None => None,
    }
}

/// The static endpoint of the proxy state: the canonical host and port, or
/// else the `host:port` of the trigger (brackets stripped, IPv6 refused).
pub open spec fn endpoint(s: AndroidProxySettings) -> Option<(Seq<char>, nat)> {
    if setting(s.host) is Some && port_value(s.port) is Some {
        Some((setting(s.host)->0, port_value(s.port)->0))
    } else {
        match setting(s.http_proxy) {
            None => None,
            Some(raw) => if raw == ":0"@ {
                None
            } else {
                match text::rsplit_once(raw, seq![':']) {
                    None => None,
                    Some((h, p)) => {
                        let host = trim_brackets(h);
                        match text::parse_uint(p, 65535) {
                            Some(n) => if n != 0 && host.len() > 0 && !text::contains(
                                host,
                                seq![':'],
                            ) {
                                Some((host, n))
                            } else {
                                None
                            },
                            None => None,
                        }
                    },
                }
            },
        }
    }
}

fn port_value_exec(p: &Option<String>) -> (r: Option<u16>)
    ensures
        match r {
            Some(n) => port_value(*p) == Some(n as nat),
            None => port_value(*p) is None,
        },
{
    match p {
        Some(v) => {
            let cs = text::chars_of(v.as_str());
            match text::parse_uint_exec(&cs, 65535) {
                Some(n) => if n != 0 {
                    Some(n as u16)
                } else {
                    None
                },
                None => None,
            }
        },
        None => None,
    }
}

impl AndroidProxySettings {
    pub fn has_effective_proxy(&self) -> (r: bool)
        ensures
            r == effective(*self),
    {
        let trigger = match nonempty_setting(&self.http_proxy) {
            Some(v) => !text::eq_str_str(v.as_str(), ":0"),
            None => false,
        };
        trigger || nonempty_setting(&self.host).is_some() || nonempty_setting(
            &self.pac_url,
        ).is_some()
    }

    pub fn static_endpoint(&self) -> (r: Option<(String, u16)>)
        ensures
            match r {
                Some((h, p)) => endpoint(*self) == Some((h@, p as nat)),
                None => endpoint(*self) is None,
            },
    {
        let host = nonempty_setting(&self.host);
        let port = port_value_exec(&self.port);
        if let (Some(h), Some(p)) = (host, port) {
            return Some((h, p));
        }
        let raw = match nonempty_setting(&self.http_proxy) {
            Some(r) => r,
            None => {
                return None;
            },
        };
        if text::eq_str_str(raw.as_str(), ":0") {
            return None;
        }
        let cs = text::chars_of(raw.as_str());
        let colon: Vec<char> = vec![':'];
        assert(colon@ =~= seq![':']);
        let (h, p) = match text::rsplit_once_exec(&cs, &colon) {
            Some(parts) => parts,
            None => {
                return None;
            },
        };
        let host = trim_brackets_exec(&h);
        match text::parse_uint_exec(&p, 65535) {
            Some(n) => {
                if n != 0 && host.len() > 0 && !text::contains_exec(&host, &colon) {
                    Some((text::string_of(&host), n as u16))
                } else {
                    None
                }
            },
            None => None,
        }
    }

    /// An identical copy.
    pub fn copied(&self) -> (r: AndroidProxySettings)
        ensures
            same_settings(r, *self),
    {
        AndroidProxySettings {
            http_proxy: opt_copy(&self.http_proxy),
            host: opt_copy(&self.host),
            port: opt_copy(&self.port),
            exclusion_list: opt_copy(&self.exclusion_list),
            pac_url: opt_copy(&self.pac_url),
        }
    }
}

/// Whether two readings of the proxy state are identical.
pub fn settings_equal(a: &AndroidProxySettings, b: &AndroidProxySettings) -> (r: bool)
    ensures
        r == same_settings(*a, *b),
{
    opt_eq(&a.http_proxy, &b.http_proxy) && opt_eq(&a.host, &b.host) && opt_eq(&a.port, &b.port)
        && opt_eq(&a.exclusion_list, &b.exclusion_list) && opt_eq(&a.pac_url, &b.pac_url)
}

/// Mobius can later put this proxy state back through adb: no PAC address
/// or exclusion list, and any effective proxy has a static endpoint.
pub open spec fn restorable(s: AndroidProxySettings) -> bool {
    setting(s.pac_url) is None && setting(s.exclusion_list) is None && (effective(s) ==> endpoint(
        s,
    ) is Some)
}

/// Refuses proxy states that adb cannot restore live.
pub fn ensure_proxy_restore_supported(settings: &AndroidProxySettings) -> (r: Result<(), ApiError>)
    ensures
        (setting(settings.pac_url) is Some || setting(settings.exclusion_list) is Some) ==> (r matches Err(e)
            && is_error(
            e,
            "proxy_restore_unsupported"@,
            "A pre-existing PAC or exclusion-list proxy is active; Mobius will not replace a proxy it cannot restore live through ADB"@,
        )),
        (setting(settings.pac_url) is None && setting(settings.exclusion_list) is None && effective(
            *settings,
        ) && endpoint(*settings) is None) ==> (r matches Err(e) && is_error(
            e,
            "proxy_restore_unsupported"@,
            "The existing Android proxy format cannot be restored safely through ADB"@,
        )),
        restorable(*settings) ==> r is Ok,
{
    if nonempty_setting(&settings.pac_url).is_some() || nonempty_setting(
        &settings.exclusion_list,
    ).is_some() {
        return Err(
            ApiError::new(
                "proxy_restore_unsupported",
                "A pre-existing PAC or exclusion-list proxy is active; Mobius will not replace a proxy it cannot restore live through ADB",
            ),
        );
    }
    if settings.has_effective_proxy() && settings.static_endpoint().is_none() {
        return Err(
            ApiError::new(
                "proxy_restore_unsupported",
                "The existing Android proxy format cannot be restored safely through ADB",
            ),
        );
    }
    Ok(())
}

/// The value of a global setting from the output of `settings get global`.
pub fn setting_from_output(stdout: String) -> (r: Option<String>)
    ensures
        stdout@ == "null"@ ==> r is None,
        stdout@ != "null"@ ==> r == Some(stdout),
{
    if text::eq_str_str(stdout.as_str(), "null") {
        None
    } else {
        Some(stdout)
    }
}

/// The device command that reads a global setting.
pub fn read_setting_command(key: &str) -> (r: String)
    ensures
        r@ == "settings get global "@ + key@,
{
    text::concat_strs("settings get global ", key)
}

/// The device command that writes a global setting, or deletes it.
pub fn write_setting_command(key: &str, value: Option<&str>) -> (r: String)
    ensures
        r@ == match value {
            Some(v) => "settings put global "@ + key@ + seq![' '] + validation::quote(v@),
            None => "settings delete global "@ + key@,
        },
{
    match value {
        Some(v) => {
            let mut c = text::chars_of("settings put global ");
            text::append_str(&mut c, key);
            c.push(' ');
            let q = validation::quote_remote(v);
            text::append_str(&mut c, q.as_str());
            text::string_of(&c)
        },
        None => text::concat_strs("settings delete global ", key),
    }
}

/// `host:port`.
pub fn endpoint_text(host: &str, port: u16) -> (r: String)
    ensures
        r@ == host@ + seq![':'] + text::decimal(port as nat),
{
    let mut c = text::chars_of(host);
    c.push(':');
    let d = text::decimal_exec(port as u64);
    text::append(&mut c, &d);
    text::string_of(&c)
}

/// The reading shows the expected endpoint in the canonical fields, or no
/// effective proxy when none is expected.
pub open spec fn shows_expected(s: AndroidProxySettings, expected: Option<(Seq<char>, nat)>) -> bool {
    match expected {
        Some((host, port)) => setting(s.host) == Some(host) && (match s.port {
            Some(p) => text::parse_uint(p@, 65535) == Some(port),
            None => false,
        }),
        None => !effective(s),
    }
}

pub fn proxy_state_matches(settings: &AndroidProxySettings, expected: Option<(&str, u16)>) -> (r:
    bool)
    ensures
        r == shows_expected(
            *settings,
            match expected {
                Some((h, p)) => Some((h@, p as nat)),
                None => None,
            },
        ),
{
    match expected {
        Some((host, port)) => {
            let h = match nonempty_setting(&settings.host) {
                Some(v) => text::eq_str_str(v.as_str(), host),
                None => false,
            };
            let p = match &settings.port {
                Some(v) => {
                    let cs = text::chars_of(v.as_str());
                    match text::parse_uint_exec(&cs, 65535) {
                        Some(n) => n == port as u64,
                        None => false,
                    }
                },
                None => false,
            };
            h && p
        },
        None => !settings.has_effective_proxy(),
    }
}

/// One observation while waiting for Android to apply a proxy state: the
/// state counts as applied once two consecutive readings show the expected
/// state and are identical. Returns whether it is applied, and the reading
/// to compare the next one with.
pub fn settle_step(
    previous_match: Option<AndroidProxySettings>,
    last: &AndroidProxySettings,
    expected: Option<(&str, u16)>,
) -> (r: (bool, Option<AndroidProxySettings>))
    ensures
        ({
            let exp = match expected {
                Some((h, p)) => Some((h@, p as nat)),
                None => None,
            };
            &&& r.0 == (shows_expected(*last, exp) && (previous_match matches Some(p)
                && same_settings(p, *last)))
            &&& shows_expected(*last, exp) ==> (r.1 matches Some(n) && same_settings(n, *last))
            &&& !shows_expected(*last, exp) ==> r.1 is None
        }),
{
    if proxy_state_matches(last, expected) {
        let settled = match &previous_match {
            Some(p) => settings_equal(p, last),
            None => false,
        };
        (settled, Some(last.copied()))
    } else {
        (false, None)
    }
}

/// The writes that put a proxy state back: first the effective state (the
/// static endpoint, or none), then each raw field exactly as it was read.
pub open spec fn restore_writes(s: AndroidProxySettings) -> Seq<(Seq<char>, Option<Seq<char>>)> {
    seq![
        ("http_proxy"@, text::opt_view(s.http_proxy)),
        ("global_http_proxy_host"@, text::opt_view(s.host)),
        ("global_http_proxy_port"@, text::opt_view(s.port)),
        ("global_http_proxy_exclusion_list"@, text::opt_view(s.exclusion_list)),
        ("global_proxy_pac_url"@, text::opt_view(s.pac_url)),
    ]
}

pub open spec fn write_views(v: Seq<(String, Option<String>)>) -> Seq<(Seq<char>, Option<Seq<char>>)> {
    v.map_values(|w: (String, Option<String>)| (w.0@, text::opt_view(w.1)))
}

/// The five proxy fields a device shows, as text (`None` where unset).
pub type ProxyFields = (
    Option<Seq<char>>,
    Option<Seq<char>>,
    Option<Seq<char>>,
    Option<Seq<char>>,
    Option<Seq<char>>,
);

pub open spec fn fields_of(s: AndroidProxySettings) -> ProxyFields {
    (
        text::opt_view(s.http_proxy),
        text::opt_view(s.host),
        text::opt_view(s.port),
        text::opt_view(s.exclusion_list),
        text::opt_view(s.pac_url),
    )
}

/// What a device shows after one `settings put` (or `delete`) of a key.
pub open spec fn write_field(f: ProxyFields, key: Seq<char>, value: Option<Seq<char>>) -> ProxyFields {
    if key == "http_proxy"@ {
        (value, f.1, f.2, f.3, f.4)
    } else if key == "global_http_proxy_host"@ {
        (f.0, value, f.2, f.3, f.4)
    } else if key == "global_http_proxy_port"@ {
        (f.0, f.1, value, f.3, f.4)
    } else if key == "global_http_proxy_exclusion_list"@ {
        (f.0, f.1, f.2, value, f.4)
    } else if key == "global_proxy_pac_url"@ {
        (f.0, f.1, f.2, f.3, value)
    } else {
        f
    }
}

/// What a device shows after the writes, made in order.
pub open spec fn after_writes(f: ProxyFields, writes: Seq<(Seq<char>, Option<Seq<char>>)>) -> ProxyFields
    decreases writes.len(),
{
    if writes.len() == 0 {
        f
    } else {
        let w = writes.last();
        write_field(after_writes(f, writes.drop_last()), w.0, w.1)
    }
}

/// Setting a proxy and then clearing it gives back the settings read before
/// the first set: `previous_to_keep` keeps those settings across later sets
/// that found the device unchanged, `check_clear` accepts only an unchanged
/// device, and the raw writes of the restore put every field back to what
/// was first read, whatever the device showed before them.
pub proof fn lemma_clear_restores_first_settings(first: AndroidProxySettings, shown: ProxyFields)
    requires
        restorable(first),
    ensures
        after_writes(shown, restore_writes(first)) == fields_of(first),
{
    reveal_strlit("http_proxy");
    reveal_strlit("global_http_proxy_host");
    reveal_strlit("global_http_proxy_port");
    reveal_strlit("global_http_proxy_exclusion_list");
    reveal_strlit("global_proxy_pac_url");
    let w = restore_writes(first);
    let w4 = w.drop_last();
    let w3 = w4.drop_last();
    let w2 = w3.drop_last();
    let w1 = w2.drop_last();
    assert(w.len() == 5);
    assert("http_proxy"@.len() == 10);
    assert("global_http_proxy_host"@.len() == 22);
    assert("global_http_proxy_port"@.len() == 22);
    assert("global_http_proxy_exclusion_list"@.len() == 32);
    assert("global_proxy_pac_url"@.len() == 20);
    assert("global_http_proxy_host"@[18] != "global_http_proxy_port"@[18]);
    assert(w1.drop_last() =~= Seq::<(Seq<char>, Option<Seq<char>>)>::empty());
    assert(after_writes(shown, w1.drop_last()) == shown);
    assert(w1.last() == w[0] && w2.last() == w[1] && w3.last() == w[2] && w4.last() == w[3]);
    let f1 = after_writes(shown, w1);
    assert(f1 == write_field(shown, "http_proxy"@, text::opt_view(first.http_proxy)));
    let f2 = after_writes(shown, w2);
    assert(f2 == write_field(f1, "global_http_proxy_host"@, text::opt_view(first.host)));
    let f3 = after_writes(shown, w3);
    assert(f3 == write_field(f2, "global_http_proxy_port"@, text::opt_view(first.port)));
    let f4 = after_writes(shown, w4);
    assert(f4 == write_field(f3, "global_http_proxy_exclusion_list"@, text::opt_view(first.exclusion_list)));
    assert(after_writes(shown, w) == write_field(f4, "global_proxy_pac_url"@, text::opt_view(first.pac_url)));
}

/// How to restore a previous proxy state: the endpoint to apply first
/// (`None` clears the proxy), then the raw writes; refused for states adb
/// cannot restore.
pub fn restore_plan(previous: &AndroidProxySettings) -> (r: Result<
    (Option<(String, u16)>, Vec<(String, Option<String>)>),
    ApiError,
>)
    ensures
        restorable(*previous) ==> (r matches Ok((ep, writes)) && write_views(writes@)
            == restore_writes(*previous) && match ep {
            Some((h, p)) => endpoint(*previous) == Some((h@, p as nat)),
            None => endpoint(*previous) is None,
        }),
        !restorable(*previous) ==> (r matches Err(e) && e.code@ == "proxy_restore_unsupported"@),
{
    ensure_proxy_restore_supported(previous)?;
    let ep = previous.static_endpoint();
    let mut writes: Vec<(String, Option<String>)> = Vec::new();
    writes.push((text::copy_str("http_proxy"), opt_copy(&previous.http_proxy)));
    writes.push((text::copy_str("global_http_proxy_host"), opt_copy(&previous.host)));
    writes.push((text::copy_str("global_http_proxy_port"), opt_copy(&previous.port)));
    writes.push(
        (text::copy_str("global_http_proxy_exclusion_list"), opt_copy(&previous.exclusion_list)),
    );
    writes.push((text::copy_str("global_proxy_pac_url"), opt_copy(&previous.pac_url)));
    assert(write_views(writes@) =~= restore_writes(*previous));
    Ok((ep, writes))
}

/// Checks a request to set the proxy: a valid device and host, a non-zero
/// port, and no IPv6 literal (the trigger setting splits at `:`).
pub fn validate_proxy_request(serial: &str, host: &str, port: u16) -> (r: Result<(), ApiError>)
    ensures
        r is Ok <==> (validation::serial_check(serial@) is Ok && validation::host_check(host@) is Ok
            && port != 0 && !text::contains(host@, seq![':'])),
        validation::serial_check(serial@) is Ok && validation::host_check(host@) is Ok && port
            == 0 ==> (r matches Err(e) && is_error(
            e,
            "invalid_proxy_port"@,
            "Proxy port must be between 1 and 65535"@,
        )),
        validation::serial_check(serial@) is Ok && validation::host_check(host@) is Ok && port != 0
            && text::contains(host@, seq![':']) ==> (r matches Err(e) && is_error(
            e,
            "unsupported_proxy_host"@,
            "Android's ADB global-proxy interface requires an IPv4 address or hostname"@,
        )),
{
    validation::serial(serial)?;
    validation::host(host)?;
    if port == 0 {
        return Err(ApiError::new("invalid_proxy_port", "Proxy port must be between 1 and 65535"));
    }
    let cs = text::chars_of(host);
    let colon: Vec<char> = vec![':'];
    assert(colon@ =~= seq![':']);
    if text::contains_exec(&cs, &colon) {
        return Err(
            ApiError::new(
                "unsupported_proxy_host",
                "Android's ADB global-proxy interface requires an IPv4 address or hostname",
            ),
        );
    }
    Ok(())
}

/// The proxy state to restore later when Mobius sets a proxy: the state
/// Mobius itself replaced when the device still shows the proxy Mobius
/// configured; otherwise the current state, which must be restorable.
pub fn previous_to_keep(current: &AndroidProxySettings, managed: Option<&ManagedProxy>) -> (r:
    Result<AndroidProxySettings, ApiError>)
    ensures
        match managed {
            Some(m) => if same_settings(*current, m.configured) {
                r matches Ok(p) && same_settings(p, m.previous)
            } else {
                (restorable(*current) ==> (r matches Ok(p) && same_settings(p, *current))) && (
                !restorable(*current) ==> (r matches Err(e) && e.code@
                    == "proxy_restore_unsupported"@))
            },
            None => (restorable(*current) ==> (r matches Ok(p) && same_settings(p, *current))) && (
            !restorable(*current) ==> (r matches Err(e) && e.code@
                == "proxy_restore_unsupported"@)),
        },
{
    match managed {
        Some(m) => {
            if settings_equal(current, &m.configured) {
                return Ok(m.previous.copied());
            }
        },
        None => {},
    }
    ensure_proxy_restore_supported(current)?;
    Ok(current.copied())
}

/// The error reported when setting the proxy failed: the failure itself
/// when the previous state came back, otherwise both failures.
pub fn set_failure(error: ApiError, rollback: Result<(), ApiError>) -> (r: ApiError)
    ensures
        rollback is Ok ==> r == error,
        rollback matches Err(re) ==> r.code@ == "proxy_set_and_rollback_failed"@ && r.message@
            == "Unable to apply the Android proxy and unable to restore its previous state: "@
            + error.message@ + "; restore error: "@ + re.message@ && r.details is None,
{
    match rollback {
        Ok(()) => error,
        Err(re) => {
            let mut c = text::chars_of(
                "Unable to apply the Android proxy and unable to restore its previous state: ",
            );
            text::append_str(&mut c, error.message.as_str());
            text::append_str(&mut c, "; restore error: ");
            text::append_str(&mut c, re.message.as_str());
            ApiError::with_message("proxy_set_and_rollback_failed", text::string_of(&c))
        },
    }
}

/// The result reported once the proxy is in effect.
pub fn set_result(host: &str, port: u16) -> (r: OperationResult)
    ensures
        r.success,
        r.message@ == "Android proxy set to "@ + host@ + seq![':'] + text::decimal(port as nat),
        r.stdout is None && r.stderr is None && r.pid is None,
        r.exit_code == Some(0i32),
        !r.timed_out,
{
    let ep = endpoint_text(host, port);
    OperationResult {
        success: true,
        message: text::concat_strs("Android proxy set to ", ep.as_str()),
        stdout: None,
        stderr: None,
        pid: None,
        exit_code: Some(0),
        timed_out: false,
    }
}

/// Clearing is allowed only for a proxy Mobius set in this session and
/// only while the device still shows exactly that proxy.
pub fn check_clear(managed: Option<&ManagedProxy>, current: &AndroidProxySettings) -> (r: Result<
    (),
    ApiError,
>)
    ensures
        managed is None ==> (r matches Err(e) && is_error(
            e,
            "proxy_not_managed"@,
            "Mobius did not set a proxy for this device during the current session"@,
        )),
        managed matches Some(m) && !same_settings(*current, m.configured) ==> (r matches Err(e)
            && is_error(
            e,
            "proxy_changed_externally"@,
            "The device proxy changed after Mobius set it; the newer external value was left untouched"@,
        )),
        managed matches Some(m) && same_settings(*current, m.configured) ==> r is Ok,
{
    match managed {
        None => Err(
            ApiError::new(
                "proxy_not_managed",
                "Mobius did not set a proxy for this device during the current session",
            ),
        ),
        Some(m) => {
            if !settings_equal(current, &m.configured) {
                return Err(
                    ApiError::new(
                        "proxy_changed_externally",
                        "The device proxy changed after Mobius set it; the newer external value was left untouched",
                    ),
                );
            }
            Ok(())
        },
    }
}

/// The result reported after the previous proxy state came back.
pub fn clear_result(previous: &AndroidProxySettings) -> (r: OperationResult)
    ensures
        r.success,
        r.message@ == (if effective(*previous) {
            "Previous Android proxy restored"@
        } else {
            "Android proxy cleared"@
        }),
        r.stdout is None && r.stderr is None && r.pid is None,
        r.exit_code == Some(0i32),
        !r.timed_out,
{
    let message = if previous.has_effective_proxy() {
        text::copy_str("Previous Android proxy restored")
    } else {
        text::copy_str("Android proxy cleared")
    };
    OperationResult {
        success: true,
        message,
        stdout: None,
        stderr: None,
        pid: None,
        exit_code: Some(0),
        timed_out: false,
    }
}

} // verus!
