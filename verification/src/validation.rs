//! Validation of identifiers, hosts, paths and endpoints received from the
//! user interface, and quoting for the device shell.
use crate::error::{is_error, ApiError};
use crate::text;
use vstd::prelude::*;
use vstd::string::StrSliceExecFns;

verus! {

pub open spec fn serial_char(c: char) -> bool {
    text::is_alnum(c) || c == '.' || c == ':' || c == '-' || c == '_'
}

/// Every character is allowed in a device identifier.
pub open spec fn serial_text(s: Seq<char>) -> bool {
    forall|i: int| 0 <= i < s.len() ==> serial_char(#[trigger] s[i])
}

/// A character allowed in an identifier segment: ASCII letter, digit or `_`.
pub open spec fn ident_char(c: char) -> bool {
    text::is_alnum(c) || c == '_'
}

/// The outcome of validating a device identifier: `Ok` or the error code and message.
pub open spec fn serial_check(s: Seq<char>) -> Result<(), (Seq<char>, Seq<char>)> {
    if s.len() == 0 || text::utf8_len(s) > 128 {
        Err(("invalid_serial"@, "Device identifier must be between 1 and 128 bytes"@))
    } else if !serial_text(s) {
        Err(("invalid_serial"@, "Device identifier contains unsupported characters"@))
    } else {
        Ok(())
    }
}

/// `r` is the value itself when `check` accepts it, and the described error otherwise.
pub open spec fn checked_as<'a>(
    r: Result<&'a str, ApiError>,
    value: &'a str,
    check: Result<(), (Seq<char>, Seq<char>)>,
) -> bool {
    match check {
        Ok(()) => r == Ok::<&'a str, ApiError>(value),
        Err((code, message)) => r matches Err(e) && is_error(e, code, message),
    }
}

/// Every character of `s` satisfies `p` (executable check over a slice).
fn all_serial_chars(s: &[char]) -> (r: bool)
    ensures
        r == serial_text(s@),
{
    let mut i: usize = 0;
    while i < s.len()
        invariant
            i <= s@.len(),
            forall|j: int| 0 <= j < i ==> serial_char(#[trigger] s@[j]),
        decreases s@.len() - i,
    {
        let c = s[i];
        if !(text::is_alnum_exec(c) || c == '.' || c == ':' || c == '-' || c == '_') {
            assert(!serial_char(s@[i as int]));
            return false;
        }
        i = i + 1;
    }
    true
}

/// Accepts a device identifier of 1 to 128 bytes made of ASCII letters,
/// digits, `.`, `:`, `-` and `_`.
pub fn serial(value: &str) -> (r: Result<&str, ApiError>)
    ensures
        checked_as(r, value, serial_check(value@)),
{
    let cs = text::chars_of(value);
    let n = text::utf8_len_capped(&cs, 129);
    if cs.len() == 0 || n > 128 {
        return Err(
            ApiError::new("invalid_serial", "Device identifier must be between 1 and 128 bytes"),
        );
    }
    if !all_serial_chars(&cs) {
        return Err(
            ApiError::new("invalid_serial", "Device identifier contains unsupported characters"),
        );
    }
    Ok(value)
}

/// One dot-separated segment of an Android package identifier.
pub open spec fn package_segment_ok(seg: Seq<char>) -> bool {
    &&& seg.len() > 0
    &&& forall|i: int| 0 <= i < seg.len() ==> ident_char(#[trigger] seg[i])
    &&& (text::is_alpha(seg[0]) || seg[0] == '_')
}

pub open spec fn package_name_check(s: Seq<char>) -> Result<(), (Seq<char>, Seq<char>)> {
    let segments = text::split(s, '.');
    if s.len() == 0 || text::utf8_len(s) > 255 || text::starts_with(s, seq!['.'])
        || text::ends_with(s, seq!['.']) {
        Err(("invalid_package_name"@, "Package identifier must be between 1 and 255 bytes"@))
    } else if segments.len() < 2 || exists|i: int|
        0 <= i < segments.len() && !package_segment_ok(#[trigger] segments[i]) {
        Err(
            (
                "invalid_package_name"@,
                "Package identifier must contain dot-separated identifier segments"@,
            ),
        )
    } else {
        Ok(())
    }
}

fn package_segment_ok_exec(seg: &[char]) -> (r: bool)
    ensures
        r == package_segment_ok(seg@),
{
    if seg.len() == 0 {
        return false;
    }
    let mut i: usize = 0;
    while i < seg.len()
        invariant
            i <= seg@.len(),
            forall|j: int| 0 <= j < i ==> ident_char(#[trigger] seg@[j]),
        decreases seg@.len() - i,
    {
        if !(text::is_alnum_exec(seg[i]) || seg[i] == '_') {
            assert(!ident_char(seg@[i as int]));
            return false;
        }
        i = i + 1;
    }
    text::is_alpha_exec(seg[0]) || seg[0] == '_'
}

/// Accepts an Android package identifier: 1 to 255 bytes, at least two
/// dot-separated segments, each starting with a letter or `_` and made of
/// ASCII letters, digits and `_`.
pub fn package_name(value: &str) -> (r: Result<&str, ApiError>)
    ensures
        checked_as(r, value, package_name_check(value@)),
{
    let cs = text::chars_of(value);
    let n = text::utf8_len_capped(&cs, 256);
    if cs.len() == 0 || n > 255 || cs[0] == '.' || cs[cs.len() - 1] == '.' {
        proof {
            assert(cs@.len() > 0 && cs@[0] == '.' ==> cs@.take(1) =~= seq!['.']);
            assert(cs@.len() > 0 && cs@[cs@.len() - 1] == '.' ==> cs@.skip(cs@.len() - 1)
                =~= seq!['.']);
        }
        return Err(
            ApiError::new(
                "invalid_package_name",
                "Package identifier must be between 1 and 255 bytes",
            ),
        );
    }
    proof {
        assert(!text::starts_with(cs@, seq!['.'])) by {
            if text::starts_with(cs@, seq!['.']) {
                assert(cs@.take(1)[0] == cs@[0]);
            }
        }
        assert(!text::ends_with(cs@, seq!['.'])) by {
            if text::ends_with(cs@, seq!['.']) {
                assert(cs@.skip(cs@.len() - 1)[0] == cs@[cs@.len() - 1]);
            }
        }
    }
    let segments = text::split_exec(&cs, '.');
    let ghost segs = text::split(cs@, '.');
    if segments.len() < 2 {
        return Err(
            ApiError::new(
                "invalid_package_name",
                "Package identifier must contain dot-separated identifier segments",
            ),
        );
    }
    let mut i: usize = 0;
    while i < segments.len()
        invariant
            text::views(segments@) == segs,
            segs == text::split(value@, '.'),
            segs.len() >= 2,
            i <= segments@.len(),
            forall|j: int| 0 <= j < i ==> package_segment_ok(#[trigger] segs[j]),
            !(value@.len() == 0 || text::utf8_len(value@) > 255 || text::starts_with(value@, seq!['.'])
                || text::ends_with(value@, seq!['.'])),
        decreases segments@.len() - i,
    {
        if !package_segment_ok_exec(&segments[i]) {
            assert(segs[i as int] == segments@[i as int]@);
            assert(segs.len() == segments@.len());
            assert(!package_segment_ok(segs[i as int]));
            assert(exists|k: int| 0 <= k < segs.len() && !package_segment_ok(#[trigger] segs[k]));
            return Err(
                ApiError::new(
                    "invalid_package_name",
                    "Package identifier must contain dot-separated identifier segments",
                ),
            );
        }
        assert(segs[i as int] == segments@[i as int]@);
        i = i + 1;
    }
    Ok(value)
}

pub open spec fn host_char(c: char) -> bool {
    text::is_alnum(c) || c == '.' || c == '-' || c == ':' || c == '_'
}

/// Every character is allowed in a host name or address.
pub open spec fn host_text(s: Seq<char>) -> bool {
    forall|i: int| 0 <= i < s.len() ==> host_char(#[trigger] s[i])
}

fn all_host_chars(s: &[char]) -> (r: bool)
    ensures
        r == host_text(s@),
{
    let mut i: usize = 0;
    while i < s.len()
        invariant
            i <= s@.len(),
            forall|j: int| 0 <= j < i ==> host_char(#[trigger] s@[j]),
        decreases s@.len() - i,
    {
        let c = s[i];
        if !(text::is_alnum_exec(c) || c == '.' || c == '-' || c == ':' || c == '_') {
            assert(!host_char(s@[i as int]));
            return false;
        }
        i = i + 1;
    }
    true
}

fn any_control(s: &[char]) -> (r: bool)
    ensures
        r == exists|i: int| 0 <= i < s@.len() && text::is_control(#[trigger] s@[i]),
{
    let mut i: usize = 0;
    while i < s.len()
        invariant
            i <= s@.len(),
            forall|j: int| 0 <= j < i ==> !text::is_control(#[trigger] s@[j]),
        decreases s@.len() - i,
    {
        if text::is_control_exec(s[i]) {
            assert(text::is_control(s@[i as int]));
            return true;
        }
        i = i + 1;
    }
    false
}

/// Splitting of a `host:port` text into the host text and the port text.
pub open spec fn host_port_parts(s: Seq<char>) -> Result<(Seq<char>, Seq<char>), (Seq<char>, Seq<char>)> {
    if s.len() > 0 && s[0] == '[' {
        let rest = s.drop_first();
        match text::find(rest, seq![']']) {
            None => Err(("invalid_address"@, "Invalid IPv6 address"@)),
            Some(end) => match text::strip_prefix(rest.skip(end + 1), seq![':']) {
                None => Err(("invalid_address"@, "Address must include a port"@)),
                Some(port) => Ok((rest.take(end), port)),
            },
        }
    } else {
        match text::rsplit_once(s, seq![':']) {
            None => Err(("invalid_address"@, "Address must be host:port"@)),
            Some((host, port)) => Ok((host, port)),
        }
    }
}

/// The outcome of validating a `host:port` address.
pub open spec fn host_port_check(s: Seq<char>) -> Result<(Seq<char>, nat), (Seq<char>, Seq<char>)> {
    if s.len() == 0 || text::utf8_len(s) > 260 || exists|i: int|
        0 <= i < s.len() && text::is_control(#[trigger] s[i]) {
        Err(("invalid_address"@, "Invalid host:port value"@))
    } else {
        match host_port_parts(s) {
            Err(e) => Err(e),
            Ok((host, port)) => if host.len() == 0 || !host_text(host) {
                Err(("invalid_address"@, "Host contains unsupported characters"@))
            } else {
                match text::parse_uint(port, 65535) {
                    Some(p) if p != 0 => Ok((host, p)),
                    _ => Err(("invalid_port"@, "Port must be between 1 and 65535"@)),
                }
            },
        }
    }
}

/// Splits and validates a `host:port` or `[ipv6]:port` address.
pub fn host_port(value: &str) -> (r: Result<(&str, u16), ApiError>)
    ensures
        match host_port_check(value@) {
            Ok((host, port)) => r matches Ok((h, p)) && h@ == host && p as nat == port,
            Err((code, message)) => r matches Err(e) && is_error(e, code, message),
        },
{
    let cs = text::chars_of(value);
    let n = text::utf8_len_capped(&cs, 261);
    if cs.len() == 0 || n > 260 || any_control(&cs) {
        return Err(ApiError::new("invalid_address", "Invalid host:port value"));
    }
    let host_start: usize;
    let host_end: usize;
    let port_start: usize;
    if cs[0] == '[' {
        let rest = text::slice_chars(&cs, 1, cs.len());
        assert(rest@ =~= cs@.drop_first());
        let close: Vec<char> = vec![']'];
        assert(close@ =~= seq![']']);
        match text::find_exec(&rest, &close) {
            None => {
                return Err(ApiError::new("invalid_address", "Invalid IPv6 address"));
            },
            Some(end) => {
                proof {
                    text::lemma_find_from_bounds(rest@, close@, 0);
                }
                let suffix = text::slice_chars(&rest, end + 1, rest.len());
                assert(suffix@ =~= rest@.skip(end + 1));
                if suffix.len() == 0 || suffix[0] != ':' {
                    proof {
                        if text::starts_with(suffix@, seq![':']) {
                            assert(suffix@.take(1)[0] == suffix@[0]);
                        }
                    }
                    return Err(ApiError::new("invalid_address", "Address must include a port"));
                }
                assert(suffix@.take(1) =~= seq![':']);
                host_start = 1;
                host_end = 1 + end;
                port_start = end + 3;
                assert(rest@.take(end as int) =~= cs@.subrange(1, 1 + end));
                assert(suffix@.skip(1) =~= cs@.skip(end + 3));
            },
        }
    } else {
        let colon: Vec<char> = vec![':'];
        assert(colon@ =~= seq![':']);
        match text::rfind_exec(&cs, &colon) {
            None => {
                return Err(ApiError::new("invalid_address", "Address must be host:port"));
            },
            Some(at) => {
                proof {
                    text::lemma_rfind_upto_bounds(cs@, colon@, cs@.len() - 1);
                }
                host_start = 0;
                host_end = at;
                port_start = at + 1;
                assert(cs@.take(at as int) =~= cs@.subrange(0, at as int));
            },
        }
    }
    let host_chars = text::slice_chars(&cs, host_start, host_end);
    let port_chars = text::slice_chars(&cs, port_start, cs.len());
    assert(port_chars@ =~= cs@.skip(port_start as int));
    if host_chars.len() == 0 || !all_host_chars(&host_chars) {
        return Err(ApiError::new("invalid_address", "Host contains unsupported characters"));
    }
    match text::parse_uint_exec(&port_chars, 65535) {
        Some(p) if p != 0 => {
            let host = value.substring_char(host_start, host_end);
            Ok((host, p as u16))
        },
        _ => Err(ApiError::new("invalid_port", "Port must be between 1 and 65535")),
    }
}

pub open spec fn host_check(s: Seq<char>) -> Result<(), (Seq<char>, Seq<char>)> {
    if s.len() == 0 || text::utf8_len(s) > 253 || !host_text(s) {
        Err(("invalid_host"@, "Host contains unsupported characters"@))
    } else {
        Ok(())
    }
}

/// Accepts a host name or address of 1 to 253 bytes made of ASCII letters,
/// digits, `.`, `-`, `:` and `_`.
pub fn host(value: &str) -> (r: Result<&str, ApiError>)
    ensures
        checked_as(r, value, host_check(value@)),
{
    let cs = text::chars_of(value);
    let n = text::utf8_len_capped(&cs, 254);
    if cs.len() == 0 || n > 253 || !all_host_chars(&cs) {
        return Err(ApiError::new("invalid_host", "Host contains unsupported characters"));
    }
    Ok(value)
}

pub open spec fn is_line_break_or_nul(c: char) -> bool {
    c == '\0' || c == '\r' || c == '\n'
}

fn any_line_break_or_nul(s: &[char]) -> (r: bool)
    ensures
        r == exists|i: int| 0 <= i < s@.len() && is_line_break_or_nul(#[trigger] s@[i]),
{
    let mut i: usize = 0;
    while i < s.len()
        invariant
            i <= s@.len(),
            forall|j: int| 0 <= j < i ==> !is_line_break_or_nul(#[trigger] s@[j]),
        decreases s@.len() - i,
    {
        let c = s[i];
        if c == '\0' || c == '\r' || c == '\n' {
            assert(is_line_break_or_nul(s@[i as int]));
            return true;
        }
        i = i + 1;
    }
    false
}

pub open spec fn remote_path_check(s: Seq<char>) -> Result<(), (Seq<char>, Seq<char>)> {
    if s.len() == 0 || text::utf8_len(s) > 1024 || !text::starts_with(s, seq!['/']) || exists|i: int|
        0 <= i < s.len() && is_line_break_or_nul(#[trigger] s[i]) {
        Err(
            (
                "invalid_remote_path"@,
                "Remote path must be an absolute path without control characters"@,
            ),
        )
    } else if text::contains(s, seq!['/', '/']) || exists|i: int|
        0 <= i < text::split(s, '/').len() && (#[trigger] text::split(s, '/')[i] == seq!['.']
            || text::split(s, '/')[i] == seq!['.', '.']) {
        Err(("invalid_remote_path"@, "Remote path cannot contain empty, '.' or '..' segments"@))
    } else {
        Ok(())
    }
}

/// Accepts an absolute device path of at most 1024 bytes without NUL or line
/// breaks, without empty, `.` or `..` segments.
pub fn remote_path(value: &str) -> (r: Result<&str, ApiError>)
    ensures
        checked_as(r, value, remote_path_check(value@)),
{
    let cs = text::chars_of(value);
    let r = remote_path_chars(&cs);
    match r {
        Ok(()) => Ok(value),
        Err(e) => Err(e),
    }
}

/// `remote_path` over a character sequence.
pub fn remote_path_chars(cs: &[char]) -> (r: Result<(), ApiError>)
    ensures
        match remote_path_check(cs@) {
            Ok(()) => r is Ok,
            Err((code, message)) => r matches Err(e) && is_error(e, code, message),
        },
{
    let n = text::utf8_len_capped(cs, 1025);
    if cs.len() == 0 || n > 1024 || cs[0] != '/' || any_line_break_or_nul(cs) {
        proof {
            if cs@.len() > 0 && text::starts_with(cs@, seq!['/']) {
                assert(cs@.take(1)[0] == cs@[0]);
            }
        }
        return Err(
            ApiError::new(
                "invalid_remote_path",
                "Remote path must be an absolute path without control characters",
            ),
        );
    }
    assert(cs@.take(1) =~= seq!['/']);
    let double: Vec<char> = vec!['/', '/'];
    assert(double@ =~= seq!['/', '/']);
    let has_double = text::contains_exec(cs, &double);
    let parts = text::split_exec(cs, '/');
    let ghost ps = text::split(cs@, '/');
    let mut bad = false;
    let mut i: usize = 0;
    while i < parts.len()
        invariant
            text::views(parts@) == ps,
            i <= parts@.len(),
            bad == exists|j: int|
                0 <= j < i && (#[trigger] ps[j] == seq!['.'] || ps[j] == seq!['.', '.']),
        decreases parts@.len() - i,
    {
        let p = &parts[i];
        assert(ps[i as int] == p@);
        let is_dot = p.len() == 1 && p[0] == '.';
        let is_dotdot = p.len() == 2 && p[0] == '.' && p[1] == '.';
        proof {
            if p@.len() == 1 && p@[0] == '.' {
                assert(p@ =~= seq!['.']);
            }
            if p@.len() == 2 && p@[0] == '.' && p@[1] == '.' {
                assert(p@ =~= seq!['.', '.']);
            }
            if p@ == seq!['.'] {
                assert(p@[0] == '.');
            }
            if p@ == seq!['.', '.'] {
                assert(p@[0] == '.' && p@[1] == '.');
            }
        }
        if is_dot || is_dotdot {
            bad = true;
        }
        i = i + 1;
    }
    if has_double || bad {
        return Err(
            ApiError::new(
                "invalid_remote_path",
                "Remote path cannot contain empty, '.' or '..' segments",
            ),
        );
    }
    Ok(())
}

/// The path is a child of one of the file-manager roots.
pub open spec fn within_deletable_root(path: Seq<char>) -> bool {
    let normalized = text::trim_end_char(path, '/');
    ||| (text::strip_prefix(normalized, "/sdcard/"@) matches Some(rest) && rest.len() > 0)
    ||| (text::strip_prefix(normalized, "/data/local/tmp/"@) matches Some(rest) && rest.len() > 0)
    ||| (text::strip_prefix(normalized, "/storage/emulated/"@) matches Some(rest)
        && text::split_once(rest, seq!['/']) matches Some((user, child)) && user.len() > 0
        && text::all_digits(user) && child.len() > 0)
}

pub open spec fn deletable_remote_path_check(s: Seq<char>) -> Result<(), (Seq<char>, Seq<char>)> {
    match remote_path_check(s) {
        Err(e) => Err(e),
        Ok(()) => if within_deletable_root(s) {
            Ok(())
        } else {
            Err(
                (
                    "protected_remote_path"@,
                    "Delete is limited to children of /sdcard, /storage/emulated/<user>, or /data/local/tmp; use the advanced shell deliberately for other locations"@,
                ),
            )
        },
    }
}

fn all_digit_chars(s: &[char]) -> (r: bool)
    ensures
        r == text::all_digits(s@),
{
    let mut i: usize = 0;
    while i < s.len()
        invariant
            i <= s@.len(),
            forall|j: int| 0 <= j < i ==> text::is_digit(#[trigger] s@[j]),
        decreases s@.len() - i,
    {
        if !text::is_digit_exec(s[i]) {
            return false;
        }
        i = i + 1;
    }
    true
}

fn within_deletable_root_exec(cs: &[char]) -> (r: bool)
    ensures
        r == within_deletable_root(cs@),
{
    let normalized = text::trim_end_char_exec(cs, '/');
    let sdcard = match text::strip_prefix_str(&normalized, "/sdcard/") {
        Some(rest) => rest.len() > 0,
        None => false,
    };
    let tmp = match text::strip_prefix_str(&normalized, "/data/local/tmp/") {
        Some(rest) => rest.len() > 0,
        None => false,
    };
    let emulated = match text::strip_prefix_str(&normalized, "/storage/emulated/") {
        Some(rest) => {
            let slash: Vec<char> = vec!['/'];
            assert(slash@ =~= seq!['/']);
            match text::split_once_exec(&rest, &slash) {
                Some((user, child)) => user.len() > 0 && all_digit_chars(&user) && child.len()
                    > 0,
                None => false,
            }
        },
        None => false,
    };
    sdcard || tmp || emulated
}

/// Accepts a device path that may be deleted: a valid remote path strictly
/// inside `/sdcard`, `/data/local/tmp` or `/storage/emulated/<user>`.
pub fn deletable_remote_path(value: &str) -> (r: Result<&str, ApiError>)
    ensures
        checked_as(r, value, deletable_remote_path_check(value@)),
{
    let cs = text::chars_of(value);
    match remote_path_chars(&cs) {
        Err(e) => Err(e),
        Ok(()) => {
            if within_deletable_root_exec(&cs) {
                Ok(value)
            } else {
                Err(
                    ApiError::new(
                        "protected_remote_path",
                        "Delete is limited to children of /sdcard, /storage/emulated/<user>, or /data/local/tmp; use the advanced shell deliberately for other locations",
                    ),
                )
            }
        },
    }
}

pub open spec fn shell_command_check(s: Seq<char>) -> Result<(), (Seq<char>, Seq<char>)> {
    if text::trim(s).len() == 0 || text::utf8_len(s) > 8192 || exists|i: int|
        0 <= i < s.len() && is_line_break_or_nul(#[trigger] s[i]) {
        Err(
            (
                "invalid_shell_command"@,
                "Shell command must be a single non-empty line up to 8192 bytes"@,
            ),
        )
    } else {
        Ok(())
    }
}

/// Accepts a non-blank single-line shell command of at most 8192 bytes.
pub fn shell_command(value: &str) -> (r: Result<&str, ApiError>)
    ensures
        checked_as(r, value, shell_command_check(value@)),
{
    let cs = text::chars_of(value);
    let trimmed = text::trim_exec(&cs);
    let n = text::utf8_len_capped(&cs, 8193);
    if trimmed.len() == 0 || n > 8192 || any_line_break_or_nul(&cs) {
        return Err(
            ApiError::new(
                "invalid_shell_command",
                "Shell command must be a single non-empty line up to 8192 bytes",
            ),
        );
    }
    Ok(value)
}

pub open spec fn socket_name_char(c: char) -> bool {
    text::is_alnum(c) || c == '/' || c == '.' || c == '_' || c == '@' || c == '+' || c == '-'
}

/// Every character is allowed in a local socket name.
pub open spec fn socket_name_text(s: Seq<char>) -> bool {
    forall|i: int| 0 <= i < s.len() ==> socket_name_char(#[trigger] s[i])
}

/// The local-socket name after a supported local-socket prefix.
pub open spec fn local_socket_name(s: Seq<char>) -> Option<Seq<char>> {
    if text::starts_with(s, "localabstract:"@) {
        text::strip_prefix(s, "localabstract:"@)
    } else if text::starts_with(s, "localreserved:"@) {
        text::strip_prefix(s, "localreserved:"@)
    } else {
        text::strip_prefix(s, "localfilesystem:"@)
    }
}

pub open spec fn endpoint_check(s: Seq<char>) -> Result<(), (Seq<char>, Seq<char>)> {
    if s.len() == 0 || text::utf8_len(s) > 512 || (exists|i: int|
        0 <= i < s.len() && (text::is_control(#[trigger] s[i]) || text::is_ws(s[i])))
        || !text::contains(s, seq![':']) {
        Err(
            (
                "invalid_endpoint"@,
                "ADB endpoint must use a supported kind:value form without whitespace"@,
            ),
        )
    } else if text::starts_with(s, "tcp:"@) {
        match text::parse_uint(s.skip(4), 65535) {
            Some(p) if p != 0 => Ok(()),
            _ => Err(("invalid_endpoint"@, "Invalid TCP endpoint port"@)),
        }
    } else {
        match local_socket_name(s) {
            None => Err(
                (
                    "invalid_endpoint"@,
                    "Only tcp, localabstract, localreserved and localfilesystem endpoints are supported"@,
                ),
            ),
            Some(name) => if name.len() == 0 || !socket_name_text(name) {
                Err(
                    (
                        "invalid_endpoint"@,
                        "ADB local socket name contains unsupported characters"@,
                    ),
                )
            } else {
                Ok(())
            },
        }
    }
}

fn any_control_or_ws(s: &[char]) -> (r: bool)
    ensures
        r == exists|i: int|
            0 <= i < s@.len() && (text::is_control(#[trigger] s@[i]) || text::is_ws(s@[i])),
{
    let mut i: usize = 0;
    while i < s.len()
        invariant
            i <= s@.len(),
            forall|j: int|
                0 <= j < i ==> !(text::is_control(#[trigger] s@[j]) || text::is_ws(s@[j])),
        decreases s@.len() - i,
    {
        if text::is_control_exec(s[i]) || text::is_ws_exec(s[i]) {
            assert(text::is_control(s@[i as int]) || text::is_ws(s@[i as int]));
            return true;
        }
        i = i + 1;
    }
    false
}

fn all_socket_name_chars(s: &[char]) -> (r: bool)
    ensures
        r == socket_name_text(s@),
{
    let mut i: usize = 0;
    while i < s.len()
        invariant
            i <= s@.len(),
            forall|j: int| 0 <= j < i ==> socket_name_char(#[trigger] s@[j]),
        decreases s@.len() - i,
    {
        let c = s[i];
        if !(text::is_alnum_exec(c) || c == '/' || c == '.' || c == '_' || c == '@' || c == '+'
            || c == '-') {
            assert(!socket_name_char(s@[i as int]));
            return false;
        }
        i = i + 1;
    }
    true
}

/// Accepts an adb forward/reverse endpoint: `tcp:<port>` with a non-zero
/// port, or a local socket (`localabstract:`, `localreserved:`,
/// `localfilesystem:`) with a safe name.
pub fn endpoint(value: &str) -> (r: Result<&str, ApiError>)
    ensures
        checked_as(r, value, endpoint_check(value@)),
{
    let cs = text::chars_of(value);
    let n = text::utf8_len_capped(&cs, 513);
    let colon: Vec<char> = vec![':'];
    assert(colon@ =~= seq![':']);
    if cs.len() == 0 || n > 512 || any_control_or_ws(&cs) || !text::contains_exec(&cs, &colon) {
        return Err(
            ApiError::new(
                "invalid_endpoint",
                "ADB endpoint must use a supported kind:value form without whitespace",
            ),
        );
    }
    if let Some(port) = text::strip_prefix_str(&cs, "tcp:") {
        proof {
            reveal_strlit("tcp:");
        }
        match text::parse_uint_exec(&port, 65535) {
            Some(p) if p != 0 => {
                return Ok(value);
            },
            _ => {
                return Err(ApiError::new("invalid_endpoint", "Invalid TCP endpoint port"));
            },
        }
    }
    let name = if text::starts_with_str(&cs, "localabstract:") {
        text::strip_prefix_str(&cs, "localabstract:")
    } else if text::starts_with_str(&cs, "localreserved:") {
        text::strip_prefix_str(&cs, "localreserved:")
    } else {
        text::strip_prefix_str(&cs, "localfilesystem:")
    };
    match name {
        None => Err(
            ApiError::new(
                "invalid_endpoint",
                "Only tcp, localabstract, localreserved and localfilesystem endpoints are supported",
            ),
        ),
        Some(name) => {
            if name.len() == 0 || !all_socket_name_chars(&name) {
                Err(
                    ApiError::new(
                        "invalid_endpoint",
                        "ADB local socket name contains unsupported characters",
                    ),
                )
            } else {
                Ok(value)
            }
        },
    }
}

/// Quotes a value for a POSIX shell: wraps it in single quotes and writes
/// each single quote as `'\''`.
pub open spec fn quote(s: Seq<char>) -> Seq<char> {
    seq!['\''] + text::replace_char(s, '\'', seq!['\'', '\\', '\'', '\'']) + seq!['\'']
}

pub fn quote_chars(value: &[char]) -> (r: Vec<char>)
    ensures
        r@ == quote(value@),
{
    let escaped: Vec<char> = vec!['\'', '\\', '\'', '\''];
    assert(escaped@ =~= seq!['\'', '\\', '\'', '\'']);
    let body = text::replace_char_exec(value, '\'', &escaped);
    let mut r: Vec<char> = vec!['\''];
    text::append(&mut r, &body);
    r.push('\'');
    assert(r@ =~= quote(value@));
    r
}

/// What a POSIX shell reads from a word made only of single-quoted strings
/// and backslash-escaped characters (`inside`: a quoted string is open);
/// `None` for a word of another form or with an unterminated quote.
pub open spec fn shell_read(q: Seq<char>, inside: bool) -> Option<Seq<char>>
    decreases q.len(),
{
    if q.len() == 0 {
        if inside {
            None
        } else {
            Some(Seq::empty())
        }
    } else if inside {
        if q[0] == '\'' {
            shell_read(q.drop_first(), false)
        } else {
            match shell_read(q.drop_first(), true) {
                Some(r) => Some(seq![q[0]] + r),
                None => None,
            }
        }
    } else if q[0] == '\'' {
        shell_read(q.drop_first(), true)
    } else if q[0] == '\\' && q.len() >= 2 {
        match shell_read(q.skip(2), false) {
            Some(r) => Some(seq![q[1]] + r),
            None => None,
        }
    } else {
        None
    }
}

proof fn lemma_replace_front(c: char, s: Seq<char>, x: char, r: Seq<char>)
    ensures
        text::replace_char(seq![c] + s, x, r) == (if c == x {
            r
        } else {
            seq![c]
        }) + text::replace_char(s, x, r),
    decreases s.len(),
{
    let t = seq![c] + s;
    if s.len() == 0 {
        assert(t.drop_last() =~= Seq::<char>::empty());
        assert(t.last() == c);
        assert(text::replace_char(Seq::<char>::empty(), x, r) =~= Seq::<char>::empty());
        assert(text::replace_char(s, x, r) =~= Seq::<char>::empty());
        assert(text::replace_char(t, x, r) == text::replace_char(t.drop_last(), x, r) + (if c == x {
            r
        } else {
            seq![c]
        }));
        assert(text::replace_char(t, x, r) =~= (if c == x {
            r
        } else {
            seq![c]
        }) + text::replace_char(s, x, r));
    } else {
        lemma_replace_front(c, s.drop_last(), x, r);
        assert(t.drop_last() =~= seq![c] + s.drop_last());
        assert(t.last() == s.last());
        let pre = if c == x {
            r
        } else {
            seq![c]
        };
        let lp = if s.last() == x {
            r
        } else {
            seq![s.last()]
        };
        assert(text::replace_char(t, x, r) == text::replace_char(t.drop_last(), x, r) + lp);
        assert(text::replace_char(s, x, r) == text::replace_char(s.drop_last(), x, r) + lp);
        assert(text::replace_char(t.drop_last(), x, r) == pre + text::replace_char(s.drop_last(), x, r));
        assert(text::replace_char(t, x, r) =~= (if c == x {
            r
        } else {
            seq![c]
        }) + text::replace_char(s, x, r));
    }
}

proof fn lemma_read_escaped(s: Seq<char>)
    ensures
        shell_read(text::replace_char(s, '\'', seq!['\'', '\\', '\'', '\'']) + seq!['\''], true) == Some(s),
    decreases s.len(),
{
    let e = seq!['\'', '\\', '\'', '\''];
    if s.len() == 0 {
        let q = text::replace_char(s, '\'', e) + seq!['\''];
        assert(q =~= seq!['\'']);
        assert(q.drop_first() =~= Seq::<char>::empty());
        assert(shell_read(q.drop_first(), false) == Some(Seq::<char>::empty()));
        assert(s =~= Seq::<char>::empty());
        assert(shell_read(q, true) == Some(s));
    } else {
        let c = s[0];
        let t = s.drop_first();
        assert(s =~= seq![c] + t);
        lemma_replace_front(c, t, '\'', e);
        lemma_read_escaped(t);
        let rest = text::replace_char(t, '\'', e) + seq!['\''];
        if c == '\'' {
            let q = e + rest;
            assert(text::replace_char(s, '\'', e) + seq!['\''] =~= q);
            assert(q.drop_first() =~= seq!['\\', '\'', '\''] + rest);
            let q1 = seq!['\\', '\'', '\''] + rest;
            assert(q1.skip(2) =~= seq!['\''] + rest);
            assert((seq!['\''] + rest).drop_first() =~= rest);
            assert(shell_read(seq!['\''] + rest, false) == shell_read(rest, true));
            assert(shell_read(q1, false) == Some(seq!['\''] + t));
            assert(shell_read(q, true) == shell_read(q1, false));
            assert(seq![c] + t =~= s);
        } else {
            let q = seq![c] + rest;
            assert(text::replace_char(s, '\'', e) + seq!['\''] =~= q);
            assert(q.drop_first() =~= rest);
            assert(shell_read(q, true) == Some(seq![c] + t));
            assert(seq![c] + t =~= s);
        }
    }
}

/// A POSIX shell reads the quoted value back as exactly the value, whatever
/// characters it holds.
pub proof fn lemma_quote_round_trip(s: Seq<char>)
    ensures
        shell_read(quote(s), false) == Some(s),
{
    let body = text::replace_char(s, '\'', seq!['\'', '\\', '\'', '\'']);
    assert(quote(s).drop_first() =~= body + seq!['\'']);
    lemma_read_escaped(s);
}

/// Shell-quotes a value for a device command.
pub fn quote_remote(value: &str) -> (r: String)
    ensures
        r@ == quote(value@),
{
    let cs = text::chars_of(value);
    let q = quote_chars(&cs);
    text::string_of(&q)
}


/// `std::path::Path::is_absolute` on the text of a local path. Whether a
/// path is absolute depends on the platform (a drive prefix on Windows, a
/// leading `/` elsewhere), so nothing is promised of the result.
#[verifier::external_body]
fn path_is_absolute(value: &str) -> bool {
    std::path::Path::new(value).is_absolute()
}

/// The basic shape of a local path: 1 to 4096 bytes without NUL.
pub open spec fn local_path_text_ok(s: Seq<char>) -> bool {
    s.len() > 0 && text::utf8_len(s) <= 4096 && !(exists|i: int| 0 <= i < s.len() && #[trigger] s[i]
        == '\0')
}

/// Accepts a local path of 1 to 4096 bytes without NUL that the platform
/// considers absolute.
pub fn local_absolute_path(value: &str) -> (r: Result<&str, ApiError>)
    ensures
        !local_path_text_ok(value@) ==> (r matches Err(e) && is_error(
            e,
            "invalid_local_path"@,
            "Invalid local path"@,
        )),
        local_path_text_ok(value@) ==> (r == Ok::<&str, ApiError>(value) || (r matches Err(e)
            && is_error(e, "invalid_local_path"@, "Local paths must be absolute"@))),
{
    let cs = text::chars_of(value);
    let n = text::utf8_len_capped(&cs, 4097);
    let mut nul = false;
    let mut i: usize = 0;
    while i < cs.len()
        invariant
            i <= cs@.len(),
            nul == exists|j: int| 0 <= j < i && #[trigger] cs@[j] == '\0',
        decreases cs@.len() - i,
    {
        if cs[i] == '\0' {
            nul = true;
        }
        i = i + 1;
    }
    if cs.len() == 0 || n > 4096 || nul {
        return Err(ApiError::new("invalid_local_path", "Invalid local path"));
    }
    if !path_is_absolute(value) {
        return Err(ApiError::new("invalid_local_path", "Local paths must be absolute"));
    }
    Ok(value)
}


/// A private IPv4 `/24` network written as `a.b.c.d/24`: its network
/// address (the host octet cleared), or the message of the error.
pub open spec fn cidr24_spec(s: Seq<char>) -> Result<(u8, u8, u8, u8), Seq<char>> {
    match text::split_once(s, seq!['/']) {
        None => Err("CIDR must be an IPv4 /24 network"@),
        Some((address, prefix)) => if prefix != seq!['2', '4'] {
            Err("Only private IPv4 /24 networks are allowed"@)
        } else {
            match crate::ip::ipv4_text(address) {
                None => Err("CIDR contains an invalid IPv4 address"@),
                Some((a, b, c, _)) => if !crate::ip::v4_private(a, b) {
                    Err("Only RFC1918 private IPv4 networks are allowed"@)
                } else {
                    Ok((a, b, c, 0u8))
                },
            }
        },
    }
}

pub fn parse_private_cidr_24(value: &str) -> (r: Result<(u8, u8, u8, u8), ApiError>)
    ensures
        match cidr24_spec(value@) {
            Ok(n) => r == Ok::<(u8, u8, u8, u8), ApiError>(n),
            Err(m) => r matches Err(e) && is_error(e, "invalid_cidr"@, m),
        },
{
    let cs = text::chars_of(value);
    let slash: Vec<char> = vec!['/'];
    assert(slash@ =~= seq!['/']);
    let (address, prefix) = match text::split_once_exec(&cs, &slash) {
        Some(pair) => pair,
        None => {
            return Err(ApiError::new("invalid_cidr", "CIDR must be an IPv4 /24 network"));
        },
    };
    let is24 = prefix.len() == 2 && prefix[0] == '2' && prefix[1] == '4';
    proof {
        if prefix@.len() == 2 && prefix@[0] == '2' && prefix@[1] == '4' {
            assert(prefix@ =~= seq!['2', '4']);
        }
    }
    if !is24 {
        return Err(ApiError::new("invalid_cidr", "Only private IPv4 /24 networks are allowed"));
    }
    let text_address = text::string_of(&address);
    match crate::ip::parse_ipv4(text_address.as_str()) {
        None => Err(ApiError::new("invalid_cidr", "CIDR contains an invalid IPv4 address")),
        Some((a, b, c, _)) => {
            if !crate::ip::is_private_v4(a, b) {
                return Err(ApiError::new("invalid_cidr", "Only RFC1918 private IPv4 networks are allowed"));
            }
            Ok((a, b, c, 0))
        },
    }
}

} // verus!
