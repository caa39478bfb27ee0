//! Read-only diagnostics and confirmed device actions over an iOS SSH
//! session: the fixed remote scripts, the parsing and sanitizing of their
//! output, and the single-use confirmation tickets of device actions.
use crate::error::{is_error, ApiError};
use crate::ios_ssh::IosSshConnection;
use crate::models::{
    IosDeviceAction, IosDeviceActionConfirmation, IosDeviceActionRequest, IosDeviceActionTarget,
    IosDiagnosticKind, IosDiagnosticResult, IosDiagnosticToolStatus,
};
use crate::text;
use vstd::prelude::*;

verus! {

// ---------------------------------------------------------------------------
// Sanitizing output
// ---------------------------------------------------------------------------

/// The suffix of truncated output.
pub open spec fn truncation_suffix() -> Seq<char> {
    "\n…[输出已截断]"@
}

/// `value` when it has at most `max` bytes; else its longest prefix (on a
/// character boundary) that leaves room for the suffix, then the suffix.
pub open spec fn truncated_text(value: Seq<char>, max: nat) -> (Seq<char>, bool) {
    if text::utf8_len(value) <= max {
        (value, false)
    } else {
        let room = if max >= text::utf8_len(truncation_suffix()) {
            (max - text::utf8_len(truncation_suffix())) as nat
        } else {
            0
        };
        (text::utf8_prefix(value, room) + truncation_suffix(), true)
    }
}

pub fn truncate_utf8(value: &[char], max_bytes: usize) -> (r: (String, bool))
    ensures
        r.0@ == truncated_text(value@, max_bytes as nat).0,
        r.1 == truncated_text(value@, max_bytes as nat).1,
{
    if text::utf8_fits(value, max_bytes) {
        return (text::string_of(value), false);
    }
    let suffix = text::chars_of("\n…[输出已截断]");
    let suffix_len = text::utf8_len_capped(&suffix, 64);
    proof {
        reveal_strlit("\n…[输出已截断]");
        assert(text::utf8_len(suffix@) <= 64) by {
            text::lemma_utf8_len_bounds(suffix@);
        }
    }
    let room = if max_bytes >= suffix_len {
        max_bytes - suffix_len
    } else {
        0
    };
    let mut out = text::utf8_prefix_exec(value, room);
    text::append(&mut out, &suffix);
    (text::string_of(&out), true)
}

pub open spec fn drop_controls(s: Seq<char>) -> Seq<char>
    decreases s.len(),
{
    if s.len() == 0 {
        Seq::empty()
    } else if text::is_control(s.last()) {
        drop_controls(s.drop_last())
    } else {
        drop_controls(s.drop_last()).push(s.last())
    }
}

pub open spec fn keep_printable(s: Seq<char>) -> Seq<char>
    decreases s.len(),
{
    if s.len() == 0 {
        Seq::empty()
    } else if text::is_control(s.last()) && s.last() != '\n' && s.last() != '\t' {
        keep_printable(s.drop_last())
    } else {
        keep_printable(s.drop_last()).push(s.last())
    }
}

pub(crate) fn filter_chars(s: &[char], keep_layout: bool) -> (r: Vec<char>)
    ensures
        keep_layout ==> r@ == keep_printable(s@),
        !keep_layout ==> r@ == drop_controls(s@),
{
    let mut out: Vec<char> = Vec::new();
    let mut i: usize = 0;
    while i < s.len()
        invariant
            i <= s@.len(),
            keep_layout ==> out@ == keep_printable(s@.take(i as int)),
            !keep_layout ==> out@ == drop_controls(s@.take(i as int)),
        decreases s@.len() - i,
    {
        let c = s[i];
        assert(s@.take(i + 1).drop_last() =~= s@.take(i as int));
        assert(s@.take(i + 1).last() == c);
        let control = text::is_control_exec(c);
        if keep_layout {
            if !control || c == '\n' || c == '\t' {
                out.push(c);
            }
        } else {
            if !control {
                out.push(c);
            }
        }
        i = i + 1;
    }
    assert(s@.take(s@.len() as int) =~= s@);
    out
}

/// A single field: control characters removed, trimmed, at most
/// `max_bytes` bytes.
pub open spec fn sanitized_field(value: Seq<char>, max: nat) -> Seq<char> {
    truncated_text(text::trim(drop_controls(value)), max).0
}

pub fn sanitize_field(value: &str, max_bytes: usize) -> (r: String)
    ensures
        r@ == sanitized_field(value@, max_bytes as nat),
{
    let cs = text::chars_of(value);
    let clean = filter_chars(&cs, false);
    let t = text::trim_exec(&clean);
    truncate_utf8(&t, max_bytes).0
}

/// Multi-line output: line endings made `\n`, control characters other
/// than newline and tab removed, trimmed, at most `max_bytes` bytes, and
/// whether it was cut.
pub open spec fn sanitized_output(value: Seq<char>, max: nat) -> (Seq<char>, bool) {
    truncated_text(
        text::trim(keep_printable(text::replace_char(text::replace_crlf(value), '\r', seq!['\n']))),
        max,
    )
}

pub fn sanitize_and_limit(value: &str, max_bytes: usize) -> (r: (String, bool))
    ensures
        r.0@ == sanitized_output(value@, max_bytes as nat).0,
        r.1 == sanitized_output(value@, max_bytes as nat).1,
{
    let cs = text::chars_of(value);
    let a = text::replace_crlf_exec(&cs);
    let nl: Vec<char> = vec!['\n'];
    assert(nl@ =~= seq!['\n']);
    let b = text::replace_char_exec(&a, '\r', &nl);
    let c = filter_chars(&b, true);
    let t = text::trim_exec(&c);
    truncate_utf8(&t, max_bytes)
}

/// An error of a diagnostic run: its code and message sanitized and
/// bounded, its details dropped.
pub fn sanitize_diagnostic_error(error: ApiError) -> (r: ApiError)
    ensures
        r.code@ == sanitized_field(error.code@, 96),
        r.message@ == sanitized_output(error.message@, 8192).0,
        r.details is None,
{
    let (message, _) = sanitize_and_limit(error.message.as_str(), 8192);
    ApiError { code: sanitize_field(error.code.as_str(), 96), message, details: None }
}


// ---------------------------------------------------------------------------
// The fixed read-only scripts
// ---------------------------------------------------------------------------

/// The number of syslog lines: 120 unless asked, kept between 20 and 400.
pub fn clamp_syslog_lines(lines: Option<u16>) -> (r: u16)
    ensures
        r == match lines {
            Some(n) => if n < 20 {
                20
            } else if n > 400 {
                400
            } else {
                n
            },
            None => 120u16,
        },
{
    let n = match lines {
        Some(n) => n,
        None => 120,
    };
    if n < 20 {
        20
    } else if n > 400 {
        400
    } else {
        n
    }
}

pub open spec fn overview_script() -> Seq<char> {
    OVERVIEW@
}

/// The overview script: kernel, system version, identity, hardware,
/// uptime, disk and memory, each from a fixed absolute tool path.
pub fn overview_command() -> (r: &'static str)
    ensures
        r@ == overview_script(),
{
    OVERVIEW
}

pub open spec fn process_script() -> Seq<char> {
    PROCESSES@
}

/// The process script: at most 1200 lines of `ps`, or of `launchctl`.
pub fn process_command() -> (r: &'static str)
    ensures
        r@ == process_script(),
{
    PROCESSES
}

pub open spec fn tools_script() -> Seq<char> {
    TOOLS@
}

/// The tool script: for each catalogued tool, the first of its fixed
/// absolute paths that is executable; no tool is started.
pub fn tools_command() -> (r: &'static str)
    ensures
        r@ == tools_script(),
{
    TOOLS
}

/// The syslog script: the last `lines` lines of the unified log (last five
/// minutes) or of `/var/log/syslog`, after a line naming the source.
pub open spec fn syslog_script(lines: u16) -> Seq<char> {
    SYSLOG_HEAD@ + text::decimal(lines as nat) + SYSLOG_MIDDLE@ + text::decimal(lines as nat) + SYSLOG_TAIL@
}

pub fn syslog_command(lines: u16) -> (r: String)
    ensures
        r@ == syslog_script(lines),
{
    let n = text::decimal_exec(lines as u64);
    let mut out = text::chars_of(SYSLOG_HEAD);
    text::append(&mut out, &n);
    text::append_str(&mut out, SYSLOG_MIDDLE);
    text::append(&mut out, &n);
    text::append_str(&mut out, SYSLOG_TAIL);
    text::string_of(&out)
}

// ---------------------------------------------------------------------------
// Reading the scripts' output
// ---------------------------------------------------------------------------

pub open spec fn lines_without(ls: Seq<Seq<char>>, marker: Seq<char>) -> Seq<Seq<char>>
    decreases ls.len(),
{
    if ls.len() == 0 {
        Seq::empty()
    } else if text::trim(ls.last()) == marker {
        lines_without(ls.drop_last(), marker)
    } else {
        lines_without(ls.drop_last(), marker).push(ls.last())
    }
}

/// The output without the lines that are (once trimmed) the marker.
pub fn remove_marker(output: &str, marker: &str) -> (r: String)
    ensures
        r@ == text::join(lines_without(text::lines(output@), marker@), seq!['\n']),
{
    let ls = text::lines_of(output);
    let ghost vs = text::views(ls@);
    let mc = text::chars_of(marker);
    let mut kept: Vec<Vec<char>> = Vec::new();
    let mut i: usize = 0;
    assert(vs.take(0) =~= Seq::<Seq<char>>::empty());
    while i < ls.len()
        invariant
            i <= ls@.len(),
            vs == text::views(ls@),
            mc@ == marker@,
            text::views(kept@) == lines_without(vs.take(i as int), marker@),
        decreases ls@.len() - i,
    {
        assert(vs.take(i + 1).drop_last() =~= vs.take(i as int));
        assert(vs.take(i + 1).last() == ls@[i as int]@);
        let t = text::trim_exec(&ls[i]);
        if !text::seq_eq(&t, &mc) {
            let ghost before = text::views(kept@);
            let c = text::copy_chars(&ls[i]);
            kept.push(c);
            assert(text::views(kept@) =~= before.push(ls@[i as int]@));
        }
        i = i + 1;
    }
    assert(vs.take(ls@.len() as int) =~= vs);
    let nl: Vec<char> = vec!['\n'];
    assert(nl@ =~= seq!['\n']);
    text::string_of(&text::join_exec(&kept, &nl))
}

/// The source named by the script (`不可用` when none) and the log lines,
/// without the marker lines.
pub open spec fn log_source_step(st: (Seq<char>, Seq<Seq<char>>), line: Seq<char>) -> (Seq<char>, Seq<Seq<char>>) {
    let t = text::trim(line);
    if t == "MOBIUS_IOS_DIAGNOSTIC"@ {
        st
    } else {
        match text::strip_prefix(t, "MOBIUS_LOG_SOURCE|"@) {
            Some(v) => (sanitized_field(v, 120), st.1),
            None => (st.0, st.1.push(line)),
        }
    }
}

pub open spec fn log_source_scan(ls: Seq<Seq<char>>) -> (Seq<char>, Seq<Seq<char>>)
    decreases ls.len(),
{
    if ls.len() == 0 {
        ("不可用"@, Seq::empty())
    } else {
        log_source_step(log_source_scan(ls.drop_last()), ls.last())
    }
}

pub fn parse_log_source(output: &str) -> (r: (String, String))
    ensures
        r.0@ == log_source_scan(text::lines(output@)).0,
        r.1@ == text::join(log_source_scan(text::lines(output@)).1, seq!['\n']),
{
    let ls = text::lines_of(output);
    let ghost vs = text::views(ls@);
    let marker = text::chars_of("MOBIUS_IOS_DIAGNOSTIC");
    let mut source = text::copy_str("不可用");
    let mut body: Vec<Vec<char>> = Vec::new();
    let mut i: usize = 0;
    assert(vs.take(0) =~= Seq::<Seq<char>>::empty());
    while i < ls.len()
        invariant
            i <= ls@.len(),
            vs == text::views(ls@),
            marker@ == "MOBIUS_IOS_DIAGNOSTIC"@,
            source@ == log_source_scan(vs.take(i as int)).0,
            text::views(body@) == log_source_scan(vs.take(i as int)).1,
        decreases ls@.len() - i,
    {
        assert(vs.take(i + 1).drop_last() =~= vs.take(i as int));
        assert(vs.take(i + 1).last() == ls@[i as int]@);
        let t = text::trim_exec(&ls[i]);
        if !text::seq_eq(&t, &marker) {
            match text::strip_prefix_str(&t, "MOBIUS_LOG_SOURCE|") {
                Some(v) => {
                    source = sanitize_field(text::string_of(&v).as_str(), 120);
                },
                None => {
                    let ghost before = text::views(body@);
                    let c = text::copy_chars(&ls[i]);
                    body.push(c);
                    assert(text::views(body@) =~= before.push(ls@[i as int]@));
                },
            }
        }
        i = i + 1;
    }
    assert(vs.take(ls@.len() as int) =~= vs);
    let nl: Vec<char> = vec!['\n'];
    assert(nl@ =~= seq!['\n']);
    (source, text::string_of(&text::join_exec(&body, &nl)))
}

/// The name and purpose of each catalogued tool.
pub open spec fn tool_meta(id: Seq<char>) -> Option<(Seq<char>, Seq<char>)> {
    if id == "frida-server"@ {
        Some(("Frida Server"@, "动态插桩服务"@))
    } else if id == "sshd"@ {
        Some(("OpenSSH Server"@, "SSH 远程服务"@))
    } else if id == "lldb"@ {
        Some(("LLDB"@, "原生调试器"@))
    } else if id == "debugserver"@ {
        Some(("debugserver"@, "远程原生调试"@))
    } else if id == "dpkg"@ {
        Some(("dpkg"@, "越狱软件包查询"@))
    } else if id == "ldid"@ {
        Some(("ldid"@, "Mach-O 签名信息"@))
    } else if id == "otool"@ {
        Some(("otool"@, "Mach-O 元数据"@))
    } else if id == "log"@ {
        Some(("Apple log"@, "统一日志查询"@))
    } else if id == "plutil"@ {
        Some(("plutil"@, "属性列表读取"@))
    } else {
        None
    }
}

pub fn tool_metadata(id: &str) -> (r: Option<(&'static str, &'static str)>)
    ensures
        match tool_meta(id@) {
            Some((n, p)) => r matches Some((a, b)) && a@ == n && b@ == p,
            None => r is None,
        },
{
    if text::eq_str_str(id, "frida-server") {
        Some(("Frida Server", "动态插桩服务"))
    } else if text::eq_str_str(id, "sshd") {
        Some(("OpenSSH Server", "SSH 远程服务"))
    } else if text::eq_str_str(id, "lldb") {
        Some(("LLDB", "原生调试器"))
    } else if text::eq_str_str(id, "debugserver") {
        Some(("debugserver", "远程原生调试"))
    } else if text::eq_str_str(id, "dpkg") {
        Some(("dpkg", "越狱软件包查询"))
    } else if text::eq_str_str(id, "ldid") {
        Some(("ldid", "Mach-O 签名信息"))
    } else if text::eq_str_str(id, "otool") {
        Some(("otool", "Mach-O 元数据"))
    } else if text::eq_str_str(id, "log") {
        Some(("Apple log", "统一日志查询"))
    } else if text::eq_str_str(id, "plutil") {
        Some(("plutil", "属性列表读取"))
    } else {
        None
    }
}

/// The fixed absolute paths at which a tool is reported.
pub open spec fn tool_paths(id: Seq<char>) -> Seq<Seq<char>> {
    if id == "frida-server"@ {
        seq!["/usr/sbin/frida-server"@, "/usr/local/bin/frida-server"@, "/var/jb/usr/sbin/frida-server"@]
    } else if id == "sshd"@ {
        seq!["/usr/sbin/sshd"@, "/var/jb/usr/sbin/sshd"@]
    } else if id == "lldb"@ {
        seq!["/usr/bin/lldb"@, "/var/jb/usr/bin/lldb"@]
    } else if id == "debugserver"@ {
        seq![
            "/usr/bin/debugserver"@,
            "/Developer/usr/bin/debugserver"@,
            "/var/jb/usr/bin/debugserver"@,
        ]
    } else if id == "dpkg"@ {
        seq!["/usr/bin/dpkg"@, "/var/jb/usr/bin/dpkg"@]
    } else if id == "ldid"@ {
        seq!["/usr/bin/ldid"@, "/var/jb/usr/bin/ldid"@]
    } else if id == "otool"@ {
        seq!["/usr/bin/otool"@, "/var/jb/usr/bin/otool"@]
    } else if id == "log"@ {
        seq!["/usr/bin/log"@]
    } else if id == "plutil"@ {
        seq!["/usr/bin/plutil"@, "/var/jb/usr/bin/plutil"@]
    } else {
        Seq::empty()
    }
}

fn tool_path_list(id: &str) -> (r: Vec<&'static str>)
    ensures
        r@.map_values(|p: &'static str| p@) == tool_paths(id@),
{
    let r: Vec<&'static str> = if text::eq_str_str(id, "frida-server") {
        vec!["/usr/sbin/frida-server", "/usr/local/bin/frida-server", "/var/jb/usr/sbin/frida-server"]
    } else if text::eq_str_str(id, "sshd") {
        vec!["/usr/sbin/sshd", "/var/jb/usr/sbin/sshd"]
    } else if text::eq_str_str(id, "lldb") {
        vec!["/usr/bin/lldb", "/var/jb/usr/bin/lldb"]
    } else if text::eq_str_str(id, "debugserver") {
        vec!["/usr/bin/debugserver", "/Developer/usr/bin/debugserver", "/var/jb/usr/bin/debugserver"]
    } else if text::eq_str_str(id, "dpkg") {
        vec!["/usr/bin/dpkg", "/var/jb/usr/bin/dpkg"]
    } else if text::eq_str_str(id, "ldid") {
        vec!["/usr/bin/ldid", "/var/jb/usr/bin/ldid"]
    } else if text::eq_str_str(id, "otool") {
        vec!["/usr/bin/otool", "/var/jb/usr/bin/otool"]
    } else if text::eq_str_str(id, "log") {
        vec!["/usr/bin/log"]
    } else if text::eq_str_str(id, "plutil") {
        vec!["/usr/bin/plutil", "/var/jb/usr/bin/plutil"]
    } else {
        Vec::new()
    };
    assert(r@.map_values(|p: &'static str| p@) =~= tool_paths(id@));
    r
}

/// Whether `path` is one of the fixed paths of tool `id`.
pub fn is_reportable_tool_path(id: &str, path: &str) -> (r: bool)
    ensures
        r == tool_paths(id@).contains(path@),
{
    let list = tool_path_list(id);
    let ghost ps = list@.map_values(|p: &'static str| p@);
    let mut i: usize = 0;
    while i < list.len()
        invariant
            i <= list@.len(),
            ps == list@.map_values(|p: &'static str| p@),
            ps == tool_paths(id@),
            forall|j: int| 0 <= j < i ==> (#[trigger] list@[j])@ != path@,
        decreases list@.len() - i,
    {
        if text::eq_str_str(list[i], path) {
            assert(ps[i as int] == path@);
            return true;
        }
        i = i + 1;
    }
    assert(!ps.contains(path@)) by {
        if ps.contains(path@) {
            let k = choose|k: int| 0 <= k < ps.len() && ps[k] == path@;
            assert(list@[k]@ == path@);
        }
    }
    false
}

/// A tool status as plain values: id, name, whether it is available, its
/// path when it is, and its purpose.
pub type ToolView = (Seq<char>, Seq<char>, bool, Option<Seq<char>>, Seq<char>);

pub open spec fn tool_view(t: IosDiagnosticToolStatus) -> ToolView {
    (t.id@, t.name@, t.available, text::opt_view(t.path), t.purpose@)
}

/// One line of the tool script's output: `MOBIUS_TOOL|<id>|<path>|...` for
/// a catalogued id not seen yet adds its status (its path counts only when
/// it is one of the tool's fixed paths); at most nine statuses.
pub open spec fn tool_step(st: Seq<ToolView>, line: Seq<char>) -> Seq<ToolView> {
    let f = text::split(text::trim(line), '|');
    if st.len() >= 9 || f[0] != "MOBIUS_TOOL"@ || f.len() < 2 {
        st
    } else {
        match tool_meta(f[1]) {
            None => st,
            Some((name, purpose)) => if exists|k: int| 0 <= k < st.len() && (#[trigger] st[k]).0 == f[1] {
                st
            } else {
                let path = sanitized_field(
                    if f.len() > 2 {
                        f[2]
                    } else {
                        Seq::empty()
                    },
                    512,
                );
                let available = tool_paths(f[1]).contains(path);
                st.push(
                    (
                        f[1],
                        name,
                        available,
                        if available {
                            Some(path)
                        } else {
                            None
                        },
                        purpose,
                    ),
                )
            },
        }
    }
}

pub open spec fn tool_scan(ls: Seq<Seq<char>>) -> Seq<ToolView>
    decreases ls.len(),
{
    if ls.len() == 0 {
        Seq::empty()
    } else {
        tool_step(tool_scan(ls.drop_last()), ls.last())
    }
}

/// The tool statuses reported by the first 128 output lines; version and
/// running state are never reported.
pub fn parse_tool_statuses(output: &str) -> (r: Vec<IosDiagnosticToolStatus>)
    ensures
        r@.map_values(|t: IosDiagnosticToolStatus| tool_view(t)) == tool_scan(
            crate::ios_apps::first_n(text::lines(output@), 128),
        ),
        forall|i: int| 0 <= i < r@.len() ==> (#[trigger] r@[i]).version is None && r@[i].running is None,
{
    let ls = text::lines_of(output);
    let ghost all = text::views(ls@);
    let n: usize = if ls.len() < 128 {
        ls.len()
    } else {
        128
    };
    let ghost vs = crate::ios_apps::first_n(all, 128);
    assert(vs.len() == n);
    let mut out: Vec<IosDiagnosticToolStatus> = Vec::new();
    let mut i: usize = 0;
    assert(vs.take(0) =~= Seq::<Seq<char>>::empty());
    assert(out@.map_values(|t: IosDiagnosticToolStatus| tool_view(t)) =~= Seq::<ToolView>::empty());
    while i < n
        invariant
            i <= n,
            n <= ls@.len(),
            vs.len() == n,
            forall|j: int| 0 <= j < n ==> #[trigger] vs[j] == ls@[j]@,
            out@.map_values(|t: IosDiagnosticToolStatus| tool_view(t)) == tool_scan(vs.take(i as int)),
            forall|j: int| 0 <= j < out@.len() ==> (#[trigger] out@[j]).version is None && out@[j].running
                is None,
        decreases n - i,
    {
        assert(vs.take(i + 1).drop_last() =~= vs.take(i as int));
        assert(vs.take(i + 1).last() == ls@[i as int]@);
        let ghost st = out@.map_values(|t: IosDiagnosticToolStatus| tool_view(t));
        let t = text::trim_exec(&ls[i]);
        let f = text::split_exec(&t, '|');
        let ghost fs = text::split(t@, '|');
        proof {
            text::lemma_split_acc_nonempty(t@, '|', Seq::empty());
        }
        assert(fs[0] == f@[0]@);
        if out.len() < 9 && text::eq_str(&f[0], "MOBIUS_TOOL") && f.len() >= 2 {
            assert(fs[1] == f@[1]@);
            let id = text::string_of(&f[1]);
            match tool_metadata(id.as_str()) {
                Some((name, purpose)) => {
                    let mut seen = false;
                    let mut k: usize = 0;
                    while k < out.len()
                        invariant
                            k <= out@.len(),
                            st == out@.map_values(|t: IosDiagnosticToolStatus| tool_view(t)),
                            seen == exists|q: int| 0 <= q < k && (#[trigger] st[q]).0 == id@,
                        decreases out@.len() - k,
                    {
                        assert(st[k as int].0 == out@[k as int].id@);
                        if text::eq_str_str(out[k].id.as_str(), id.as_str()) {
                            seen = true;
                        }
                        k = k + 1;
                    }
                    if !seen {
                        let raw = if f.len() > 2 {
                            assert(fs[2] == f@[2]@);
                            text::string_of(&f[2])
                        } else {
                            String::new()
                        };
                        let path = sanitize_field(raw.as_str(), 512);
                        let available = is_reportable_tool_path(id.as_str(), path.as_str());
                        let status = IosDiagnosticToolStatus {
                            id,
                            name: text::copy_str(name),
                            available,
                            path: if available {
                                Some(path)
                            } else {
                                None
                            },
                            version: None,
                            running: None,
                            purpose: text::copy_str(purpose),
                        };
                        let ghost sv = tool_view(status);
                        out.push(status);
                        assert(out@.map_values(|t: IosDiagnosticToolStatus| tool_view(t)) =~= st.push(sv));
                    }
                },
                None => {},
            }
        }
        i = i + 1;
    }
    assert(vs.take(n as int) =~= vs);
    out
}

// ---------------------------------------------------------------------------
// Device actions
// ---------------------------------------------------------------------------

/// The fixed script of an action.
pub fn action_command(action: IosDeviceAction) -> (r: &'static str)
    ensures
        r@ == match action {
            IosDeviceAction::Respring => RESPRING@,
            IosDeviceAction::Reboot => REBOOT@,
        },
{
    match action {
        IosDeviceAction::Respring => RESPRING,
        IosDeviceAction::Reboot => REBOOT,
    }
}

/// The device must acknowledge the action with the marker line.
pub fn check_action_accepted(stdout: &str) -> (r: Result<(), ApiError>)
    ensures
        text::has_trimmed_line(text::lines(stdout@), "MOBIUS_IOS_ACTION_ACCEPTED"@) ==> r is Ok,
        !text::has_trimmed_line(text::lines(stdout@), "MOBIUS_IOS_ACTION_ACCEPTED"@) ==> (r matches Err(e)
            && is_error(
            e,
            "ios_action_not_accepted"@,
            "The device did not acknowledge the requested fixed action"@,
        )),
{
    let ls = text::lines_of(stdout);
    if text::has_trimmed_line_exec(&ls, "MOBIUS_IOS_ACTION_ACCEPTED") {
        Ok(())
    } else {
        Err(
            ApiError::new(
                "ios_action_not_accepted",
                "The device did not acknowledge the requested fixed action",
            ),
        )
    }
}

/// The message of an accepted action.
pub fn action_message(action: IosDeviceAction) -> (r: &'static str)
    ensures
        r@ == match action {
            IosDeviceAction::Respring => "Respring 已调度，SpringBoard 将重新载入。"@,
            IosDeviceAction::Reboot => "设备重启已调度，SSH 连接将暂时中断。"@,
        },
{
    match action {
        IosDeviceAction::Respring => "Respring 已调度，SpringBoard 将重新载入。",
        IosDeviceAction::Reboot => "设备重启已调度，SSH 连接将暂时中断。",
    }
}

/// Device actions need a session that runs as root.
pub fn require_root_session(connection: &IosSshConnection) -> (r: Result<(), ApiError>)
    ensures
        connection.remote_uid == Some(0u32) ==> r is Ok,
        connection.remote_uid != Some(0u32) ==> (r matches Err(e) && is_error(
            e,
            "ios_root_required"@,
            "This iOS device action requires a verified root SSH session"@,
        )),
{
    match connection.remote_uid {
        Some(0) => Ok(()),
        _ => Err(ApiError::new("ios_root_required", "This iOS device action requires a verified root SSH session")),
    }
}

/// The endpoint shown for confirmation: host, port, user, system, and the
/// host-key identity (the alias, or `[host]:port`).
pub fn action_target(connection: &IosSshConnection) -> (r: IosDeviceActionTarget)
    ensures
        r.ssh_host@ == connection.ssh_host@,
        r.ssh_port == connection.ssh_port,
        r.username@ == connection.username@,
        text::opt_view(r.server_system) == text::opt_view(connection.server_system),
        r.host_key_identity@ == match connection.host_key_alias {
            Some(a) => a@,
            None => seq!['['] + connection.ssh_host@ + seq![']', ':'] + text::decimal(
                connection.ssh_port as nat,
            ),
        },
{
    let identity = match &connection.host_key_alias {
        Some(a) => text::copy_string(a),
        None => {
            let mut out: Vec<char> = vec!['['];
            text::append_str(&mut out, connection.ssh_host.as_str());
            out.push(']');
            out.push(':');
            text::append(&mut out, &text::decimal_exec(connection.ssh_port as u64));
            text::string_of(&out)
        },
    };
    IosDeviceActionTarget {
        ssh_host: text::copy_string(&connection.ssh_host),
        ssh_port: connection.ssh_port,
        username: text::copy_string(&connection.username),
        server_system: match &connection.server_system {
            Some(s) => Some(text::copy_string(s)),
            None => None,
        },
        host_key_identity: identity,
    }
}

pub open spec fn opt_str_view(o: Option<&str>) -> Option<Seq<char>> {
    match o {
        Some(s) => Some(s@),
        None => None,
    }
}

fn opt_eq(a: &Option<String>, b: Option<&str>) -> (r: bool)
    ensures
        r == (text::opt_view(*a) == opt_str_view(b)),
{
    match (a, b) {
        (Some(x), Some(y)) => text::eq_str_str(x.as_str(), y),
        (None, None) => true,
        _ => false,
    }
}

/// The endpoint must still be the one the user reviewed, field by field.
pub fn require_expected_target(
    target: &IosDeviceActionTarget,
    expected_host: &str,
    expected_port: u16,
    expected_username: &str,
    expected_server_system: Option<&str>,
    expected_host_key_identity: Option<&str>,
) -> (r: Result<(), ApiError>)
    ensures
        ({
            let same = target.ssh_host@ == expected_host@ && target.ssh_port == expected_port
                && target.username@ == expected_username@ && text::opt_view(target.server_system)
                == opt_str_view(expected_server_system) && match expected_host_key_identity {
                Some(i) => i@ == target.host_key_identity@,
                None => true,
            };
            &&& same ==> r is Ok
            &&& !same ==> (r matches Err(e) && is_error(
                e,
                "ios_action_target_changed"@,
                "The active SSH target changed; review the current endpoint before continuing"@,
            ))
        }),
{
    let identity_ok = match expected_host_key_identity {
        Some(i) => text::eq_str_str(i, target.host_key_identity.as_str()),
        None => true,
    };
    if !text::eq_str_str(target.ssh_host.as_str(), expected_host) || target.ssh_port != expected_port
        || !text::eq_str_str(target.username.as_str(), expected_username) || !opt_eq(
        &target.server_system,
        expected_server_system,
    ) || !identity_ok {
        return Err(
            ApiError::new(
                "ios_action_target_changed",
                "The active SSH target changed; review the current endpoint before continuing",
            ),
        );
    }
    Ok(())
}

// ---------------------------------------------------------------------------
// Confirmation tickets
// ---------------------------------------------------------------------------

/// A pending confirmation of a device action: the reviewed endpoint and its
/// expiry (in milliseconds of a monotonic clock).
#[derive(Debug, Clone)]
pub struct ActionTicket {
    pub confirmation_id: String,
    pub session_id: String,
    pub action: IosDeviceAction,
    pub ssh_host: String,
    pub ssh_port: u16,
    pub username: String,
    pub server_system: Option<String>,
    pub host_key_identity: String,
    pub expires_at_ms: u64,
}

pub type TicketView = (
    Seq<char>,
    Seq<char>,
    IosDeviceAction,
    Seq<char>,
    u16,
    Seq<char>,
    Option<Seq<char>>,
    Seq<char>,
    u64,
);

pub open spec fn ticket_view(t: ActionTicket) -> TicketView {
    (
        t.confirmation_id@,
        t.session_id@,
        t.action,
        t.ssh_host@,
        t.ssh_port,
        t.username@,
        text::opt_view(t.server_system),
        t.host_key_identity@,
        t.expires_at_ms,
    )
}

pub open spec fn ticket_views(v: Seq<ActionTicket>) -> Seq<TicketView> {
    v.map_values(|t: ActionTicket| ticket_view(t))
}

/// No two pending tickets share an identifier.
pub open spec fn ids_unique(v: Seq<TicketView>) -> bool {
    forall|i: int, j: int| 0 <= i < j < v.len() ==> (#[trigger] v[i]).0 != (#[trigger] v[j]).0
}

pub const MAX_ACTION_CONFIRMATIONS: usize = 32;

pub const ACTION_CONFIRMATION_SECONDS: u64 = 30;

/// The tickets kept when a new one is prepared: unexpired ones, except an
/// earlier ticket for the same session and action.
pub open spec fn pruned(v: Seq<TicketView>, now: u64, session: Seq<char>, action: IosDeviceAction) -> Seq<TicketView>
    decreases v.len(),
{
    if v.len() == 0 {
        Seq::empty()
    } else {
        let t = v.last();
        if t.8 > now && !(t.1 == session && t.2 == action) {
            pruned(v.drop_last(), now, session, action).push(t)
        } else {
            pruned(v.drop_last(), now, session, action)
        }
    }
}

pub open spec fn without_id(v: Seq<TicketView>, id: Seq<char>) -> Seq<TicketView>
    decreases v.len(),
{
    if v.len() == 0 {
        Seq::empty()
    } else if v.last().0 == id {
        without_id(v.drop_last(), id)
    } else {
        without_id(v.drop_last(), id).push(v.last())
    }
}

proof fn lemma_pruned_subset(v: Seq<TicketView>, now: u64, session: Seq<char>, action: IosDeviceAction)
    ensures
        forall|x: TicketView| #[trigger] pruned(v, now, session, action).contains(x) ==> v.contains(x),
        ids_unique(v) ==> ids_unique(pruned(v, now, session, action)),
    decreases v.len(),
{
    if v.len() > 0 {
        lemma_pruned_subset(v.drop_last(), now, session, action);
        let p = pruned(v.drop_last(), now, session, action);
        assert forall|x: TicketView| #[trigger] pruned(v, now, session, action).contains(x) implies v.contains(x) by {
            let q = pruned(v, now, session, action);
            let k = choose|k: int| 0 <= k < q.len() && q[k] == x;
            if k < p.len() {
                assert(p[k] == x);
                assert(p.contains(x));
                let j = choose|j: int| 0 <= j < v.drop_last().len() && v.drop_last()[j] == x;
                assert(v[j] == x);
            } else {
                assert(v[v.len() - 1] == x);
            }
        }
        if ids_unique(v) {
            assert(ids_unique(v.drop_last()));
            let q = pruned(v, now, session, action);
            if q.len() > p.len() {
                assert forall|i: int, j: int| 0 <= i < j < q.len() implies (#[trigger] q[i]).0 != (#[trigger] q[j]).0 by {
                    if j == q.len() - 1 {
                        assert(p.contains(q[i]));
                        let k = choose|k: int| 0 <= k < v.drop_last().len() && v.drop_last()[k] == q[i];
                        assert(v[k] == q[i]);
                        assert(v[k].0 != v[v.len() - 1].0);
                    } else {
                        assert(p[i] == q[i] && p[j] == q[j]);
                    }
                }
            }
        }
    }
}

proof fn lemma_without_id(v: Seq<TicketView>, id: Seq<char>)
    ensures
        forall|x: TicketView| #[trigger] without_id(v, id).contains(x) ==> v.contains(x) && x.0 != id,
        ids_unique(v) ==> ids_unique(without_id(v, id)),
    decreases v.len(),
{
    if v.len() > 0 {
        lemma_without_id(v.drop_last(), id);
        let p = without_id(v.drop_last(), id);
        let q = without_id(v, id);
        assert forall|x: TicketView| #[trigger] q.contains(x) implies v.contains(x) && x.0 != id by {
            let k = choose|k: int| 0 <= k < q.len() && q[k] == x;
            if k < p.len() {
                assert(p[k] == x);
                assert(p.contains(x));
                let j = choose|j: int| 0 <= j < v.drop_last().len() && v.drop_last()[j] == x;
                assert(v[j] == x);
            } else {
                assert(v[v.len() - 1] == x);
            }
        }
        if ids_unique(v) {
            assert(ids_unique(v.drop_last()));
            if q.len() > p.len() {
                assert forall|i: int, j: int| 0 <= i < j < q.len() implies (#[trigger] q[i]).0 != (#[trigger] q[j]).0 by {
                    if j == q.len() - 1 {
                        assert(p.contains(q[i]));
                        let k = choose|k: int| 0 <= k < v.drop_last().len() && v.drop_last()[k] == q[i];
                        assert(v[k] == q[i]);
                        assert(v[k].0 != v[v.len() - 1].0);
                    } else {
                        assert(p[i] == q[i] && p[j] == q[j]);
                    }
                }
            }
        }
    }
}

/// The pending tickets after `ticket` is prepared at time `now`, or `None`
/// when too many remain pending (the pruning is kept then).
pub open spec fn registered(v: Seq<TicketView>, t: TicketView, now: u64) -> (Seq<TicketView>, bool) {
    let p = pruned(v, now, t.1, t.2);
    if p.len() >= MAX_ACTION_CONFIRMATIONS {
        (p, false)
    } else {
        (without_id(p, t.0).push(t), true)
    }
}

/// Prepares a confirmation: expired tickets and an earlier ticket for the
/// same session and action are dropped, at most 32 may be pending, and a
/// ticket with the same identifier is replaced.
pub fn register_confirmation(tickets: &mut Vec<ActionTicket>, ticket: ActionTicket, now_ms: u64) -> (r: Result<
    (),
    ApiError,
>)
    requires
        ids_unique(ticket_views(old(tickets)@)),
    ensures
        ticket_views(final(tickets)@) == registered(ticket_views(old(tickets)@), ticket_view(ticket), now_ms).0,
        registered(ticket_views(old(tickets)@), ticket_view(ticket), now_ms).1 ==> r is Ok,
        !registered(ticket_views(old(tickets)@), ticket_view(ticket), now_ms).1 ==> (r matches Err(e)
            && is_error(
            e,
            "ios_action_confirmation_limit"@,
            "Too many device confirmations are pending; wait briefly and try again"@,
        )),
        ids_unique(ticket_views(final(tickets)@)),
{
    let ghost v = ticket_views(tickets@);
    let ghost tv = ticket_view(ticket);
    let mut kept: Vec<ActionTicket> = Vec::new();
    let mut i: usize = 0;
    let n = tickets.len();
    let ghost orig = tickets@;
    assert(v.take(0) =~= Seq::<TicketView>::empty());
    while tickets.len() > 0
        invariant
            i + tickets@.len() == n,
            n == orig.len(),
            v == ticket_views(orig),
            tickets@ == orig.skip(i as int),
            tv == ticket_view(ticket),
            ticket_views(kept@) == pruned(v.take(i as int), now_ms, tv.1, tv.2),
        decreases tickets@.len(),
    {
        let t = tickets.remove(0);
        assert(orig.skip(i as int)[0] == t);
        assert(orig.skip(i as int).skip(1) =~= orig.skip(i + 1));
        assert(v.take(i + 1).drop_last() =~= v.take(i as int));
        assert(v.take(i + 1).last() == ticket_view(t));
        let keep = t.expires_at_ms > now_ms && !(text::eq_str_str(t.session_id.as_str(), ticket.session_id.as_str())
            && t.action == ticket.action);
        if keep {
            let ghost before = ticket_views(kept@);
            kept.push(t);
            assert(ticket_views(kept@) =~= before.push(ticket_view(t)));
        }
        i = i + 1;
    }
    assert(v.take(n as int) =~= v);
    proof {
        lemma_pruned_subset(v, now_ms, tv.1, tv.2);
    }
    if kept.len() >= MAX_ACTION_CONFIRMATIONS {
        *tickets = kept;
        return Err(
            ApiError::new(
                "ios_action_confirmation_limit",
                "Too many device confirmations are pending; wait briefly and try again",
            ),
        );
    }
    let ghost p = ticket_views(kept@);
    let mut out: Vec<ActionTicket> = Vec::new();
    let mut j: usize = 0;
    let ghost korig = kept@;
    let m = kept.len();
    assert(p.take(0) =~= Seq::<TicketView>::empty());
    while kept.len() > 0
        invariant
            j + kept@.len() == m,
            m == korig.len(),
            p == ticket_views(korig),
            kept@ == korig.skip(j as int),
            tv == ticket_view(ticket),
            ticket_views(out@) == without_id(p.take(j as int), tv.0),
        decreases kept@.len(),
    {
        let t = kept.remove(0);
        assert(korig.skip(j as int)[0] == t);
        assert(korig.skip(j as int).skip(1) =~= korig.skip(j + 1));
        assert(p.take(j + 1).drop_last() =~= p.take(j as int));
        assert(p.take(j + 1).last() == ticket_view(t));
        if !text::eq_str_str(t.confirmation_id.as_str(), ticket.confirmation_id.as_str()) {
            let ghost before = ticket_views(out@);
            out.push(t);
            assert(ticket_views(out@) =~= before.push(ticket_view(t)));
        }
        j = j + 1;
    }
    assert(p.take(m as int) =~= p);
    proof {
        lemma_without_id(p, tv.0);
    }
    let ghost w = ticket_views(out@);
    out.push(ticket);
    assert(ticket_views(out@) =~= w.push(tv));
    assert forall|a: int, b: int| 0 <= a < b < ticket_views(out@).len() implies (#[trigger] ticket_views(
        out@,
    )[a]).0 != (#[trigger] ticket_views(out@)[b]).0 by {
        if b == w.len() {
            assert(w.contains(w[a]));
        } else {
            assert(ticket_views(out@)[a] == w[a] && ticket_views(out@)[b] == w[b]);
        }
    }
    *tickets = out;
    Ok(())
}

/// The index of the ticket with this identifier.
pub open spec fn ticket_index(v: Seq<TicketView>, id: Seq<char>) -> Option<int> {
    if exists|k: int| 0 <= k < v.len() && (#[trigger] v[k]).0 == id {
        Some(choose|k: int| 0 <= k < v.len() && (#[trigger] v[k]).0 == id)
    } else {
        None
    }
}

/// The tickets after one is consumed at time `now`, and what the consumer
/// gets: the ticket, or the code of the refusal. A ticket is removed
/// whether or not it has expired.
pub open spec fn consumed(v: Seq<TicketView>, id: Seq<char>, now: u64) -> (Seq<TicketView>, Result<TicketView, (Seq<char>, Seq<char>)>) {
    match ticket_index(v, id) {
        None => (v, Err(unknown_ticket())),
        Some(k) => (v.remove(k), if v[k].8 <= now {
            Err(
                (
                    "ios_action_confirmation_expired"@,
                    "The device confirmation expired; review the SSH target again"@,
                ),
            )
        } else {
            Ok(v[k])
        }),
    }
}

pub open spec fn unknown_ticket() -> (Seq<char>, Seq<char>) {
    ("ios_action_confirmation_invalid"@, "The device confirmation is missing, expired, or was already used"@)
}

pub fn consume_confirmation(tickets: &mut Vec<ActionTicket>, confirmation_id: &str, now_ms: u64) -> (r: Result<
    ActionTicket,
    ApiError,
>)
    requires
        ids_unique(ticket_views(old(tickets)@)),
    ensures
        ticket_views(final(tickets)@) == consumed(ticket_views(old(tickets)@), confirmation_id@, now_ms).0,
        ids_unique(ticket_views(final(tickets)@)),
        match consumed(ticket_views(old(tickets)@), confirmation_id@, now_ms).1 {
            Ok(t) => r matches Ok(x) && ticket_view(x) == t,
            Err((code, message)) => r matches Err(e) && is_error(e, code, message),
        },
{
    let ghost v = ticket_views(tickets@);
    let mut k: usize = 0;
    while k < tickets.len() && !text::eq_str_str(tickets[k].confirmation_id.as_str(), confirmation_id)
        invariant
            k <= tickets@.len(),
            v == ticket_views(tickets@),
            forall|j: int| 0 <= j < k ==> (#[trigger] v[j]).0 != confirmation_id@,
        decreases tickets@.len() - k,
    {
        assert(v[k as int].0 == tickets@[k as int].confirmation_id@);
        k = k + 1;
    }
    if k == tickets.len() {
        proof {
            if exists|q: int| 0 <= q < v.len() && (#[trigger] v[q]).0 == confirmation_id@ {
                let q = choose|q: int| 0 <= q < v.len() && (#[trigger] v[q]).0 == confirmation_id@;
                assert(v[q].0 != confirmation_id@);
            }
        }
        return Err(
            ApiError::new(
                "ios_action_confirmation_invalid",
                "The device confirmation is missing, expired, or was already used",
            ),
        );
    }
    assert(v[k as int].0 == confirmation_id@);
    proof {
        let q = choose|q: int| 0 <= q < v.len() && (#[trigger] v[q]).0 == confirmation_id@;
        if q != k {
            if q < k {
                assert(v[q].0 != v[k as int].0);
            } else {
                assert(v[k as int].0 != v[q].0);
            }
        }
    }
    let t = tickets.remove(k);
    assert(ticket_views(tickets@) =~= v.remove(k as int));
    assert forall|a: int, b: int| 0 <= a < b < ticket_views(tickets@).len() implies (#[trigger] ticket_views(
        tickets@,
    )[a]).0 != (#[trigger] ticket_views(tickets@)[b]).0 by {
        let a2 = if a < k { a } else { a + 1 };
        let b2 = if b < k { b } else { b + 1 };
        assert(ticket_views(tickets@)[a] == v[a2]);
        assert(ticket_views(tickets@)[b] == v[b2]);
    }
    if t.expires_at_ms <= now_ms {
        return Err(
            ApiError::new(
                "ios_action_confirmation_expired",
                "The device confirmation expired; review the SSH target again",
            ),
        );
    }
    Ok(t)
}

/// A confirmation is used at most once: after it has been consumed, with
/// whatever outcome, consuming it again is refused as unknown.
pub proof fn lemma_confirmation_consumed_once(v: Seq<TicketView>, id: Seq<char>, now: u64, later: u64)
    requires
        ids_unique(v),
    ensures
        consumed(consumed(v, id, now).0, id, later).1 == Err::<TicketView, (Seq<char>, Seq<char>)>(
            unknown_ticket(),
        ),
{
    let w = consumed(v, id, now).0;
    match ticket_index(v, id) {
        None => {},
        Some(k) => {
            assert(v[k].0 == id);
            if exists|q: int| 0 <= q < w.len() && (#[trigger] w[q]).0 == id {
                let q = choose|q: int| 0 <= q < w.len() && (#[trigger] w[q]).0 == id;
                let q2 = if q < k { q } else { q + 1 };
                assert(w[q] == v[q2]);
                if q2 < k {
                    assert(v[q2].0 != v[k].0);
                } else {
                    assert(v[k].0 != v[q2].0);
                }
            }
        },
    }
}

/// A ticket must match the request in every field.
pub fn require_confirmation_match(ticket: &ActionTicket, request: &IosDeviceActionRequest) -> (r: Result<
    (),
    ApiError,
>)
    ensures
        ({
            let same = ticket.confirmation_id@ == request.confirmation_id@ && ticket.session_id@
                == request.session_id@ && ticket.action == request.action && ticket.ssh_host@
                == request.expected_ssh_host@ && ticket.ssh_port == request.expected_ssh_port
                && ticket.username@ == request.expected_username@ && text::opt_view(ticket.server_system)
                == text::opt_view(request.expected_server_system) && ticket.host_key_identity@
                == request.expected_host_key_identity@;
            &&& same ==> r is Ok
            &&& !same ==> (r matches Err(e) && is_error(
                e,
                "ios_action_confirmation_mismatch"@,
                "The device confirmation does not match the current SSH target and action"@,
            ))
        }),
{
    let system_same = match (&ticket.server_system, &request.expected_server_system) {
        (Some(a), Some(b)) => text::eq_str_str(a.as_str(), b.as_str()),
        (None, None) => true,
        _ => false,
    };
    if !text::eq_str_str(ticket.confirmation_id.as_str(), request.confirmation_id.as_str())
        || !text::eq_str_str(ticket.session_id.as_str(), request.session_id.as_str()) || ticket.action
        != request.action || !text::eq_str_str(ticket.ssh_host.as_str(), request.expected_ssh_host.as_str())
        || ticket.ssh_port != request.expected_ssh_port || !text::eq_str_str(
        ticket.username.as_str(),
        request.expected_username.as_str(),
    ) || !system_same || !text::eq_str_str(
        ticket.host_key_identity.as_str(),
        request.expected_host_key_identity.as_str(),
    ) {
        return Err(
            ApiError::new(
                "ios_action_confirmation_mismatch",
                "The device confirmation does not match the current SSH target and action",
            ),
        );
    }
    Ok(())
}

pub open spec fn confirmation_char(c: char) -> bool {
    text::is_alnum(c) || c == '-' || c == '_'
}

pub open spec fn confirmation_id_ok(s: Seq<char>) -> bool {
    text::utf8_len(s) == 32 && forall|i: int| 0 <= i < s.len() ==> confirmation_char(#[trigger] s[i])
}

/// A confirmation identifier: 32 bytes of ASCII letters, digits, `-` and
/// `_` (the URL-safe base64 alphabet).
pub fn validate_confirmation_id(value: &str) -> (r: Result<(), ApiError>)
    ensures
        confirmation_id_ok(value@) ==> r is Ok,
        !confirmation_id_ok(value@) ==> (r matches Err(e) && is_error(
            e,
            "invalid_ios_action_confirmation"@,
            "Invalid iOS device confirmation identifier"@,
        )),
{
    let cs = text::chars_of(value);
    let n = text::utf8_len_capped(&cs, 33);
    let mut ok = n == 32;
    let mut i: usize = 0;
    while i < cs.len()
        invariant
            i <= cs@.len(),
            ok == (n == 32 && forall|j: int| 0 <= j < i ==> confirmation_char(#[trigger] cs@[j])),
        decreases cs@.len() - i,
    {
        let c = cs[i];
        if !(text::is_alnum_exec(c) || c == '-' || c == '_') {
            ok = false;
        }
        i = i + 1;
    }
    if !ok {
        return Err(ApiError::new("invalid_ios_action_confirmation", "Invalid iOS device confirmation identifier"));
    }
    Ok(())
}

/// The identifier of a new confirmation: 24 random bytes in URL-safe base64
/// without padding.
pub fn new_confirmation_id() -> (r: Result<String, ApiError>)
    ensures
        r matches Ok(s) ==> exists|b: Seq<u8>| b.len() == 24 && s@ == crate::encoding::base64(b, true, false),
        r matches Err(e) ==> is_error(
            e,
            "ios_action_confirmation_unavailable"@,
            "Unable to create a secure device confirmation"@,
        ),
{
    match crate::encoding::random_bytes(24) {
        Ok(b) => {
            let s = crate::encoding::encode_url_safe_no_pad(&b);
            assert(b@.len() == 24 && s@ == crate::encoding::base64(b@, true, false));
            Ok(s)
        },
        Err(_) => Err(
            ApiError::new("ios_action_confirmation_unavailable", "Unable to create a secure device confirmation"),
        ),
    }
}

/// The confirmation returned to the user.
pub fn confirmation_reply(
    confirmation_id: String,
    session_id: String,
    action: IosDeviceAction,
    target: IosDeviceActionTarget,
) -> (r: IosDeviceActionConfirmation)
    ensures
        r.success,
        r.confirmation_id@ == confirmation_id@,
        r.session_id@ == session_id@,
        r.action == action,
        r.target == target,
        r.expires_in_seconds == ACTION_CONFIRMATION_SECONDS,
{
    IosDeviceActionConfirmation {
        success: true,
        confirmation_id,
        session_id,
        action,
        target,
        expires_in_seconds: ACTION_CONFIRMATION_SECONDS,
    }
}

/// Every identifier that `new_confirmation_id` can give is accepted by
/// `validate_confirmation_id`: 24 bytes make 32 URL-safe base64 digits.
pub proof fn lemma_new_ids_are_valid(b: Seq<u8>)
    requires
        b.len() == 24,
    ensures
        confirmation_id_ok(crate::encoding::base64(b, true, false)),
{
    lemma_url_digits(b);
    let s = crate::encoding::base64(b, true, false);
    lemma_ascii_utf8_len(s);
}

proof fn lemma_digit_ok(n: nat)
    requires
        n < 64,
    ensures
        confirmation_char(crate::encoding::b64_digit(n, true)),
        (crate::encoding::b64_digit(n, true) as u32) < 0x80,
{
}

proof fn lemma_url_digits(b: Seq<u8>)
    requires
        b.len() % 3 == 0,
    ensures
        crate::encoding::base64(b, true, false).len() == 4 * (b.len() / 3),
        forall|i: int|
            0 <= i < crate::encoding::base64(b, true, false).len() ==> confirmation_char(
                #[trigger] crate::encoding::base64(b, true, false)[i],
            ) && (crate::encoding::base64(b, true, false)[i] as u32) < 0x80,
    decreases b.len(),
{
    if b.len() >= 3 {
        lemma_url_digits(b.skip(3));
        lemma_digit_ok((b[0] / 4) as nat);
        lemma_digit_ok(((b[0] % 4) * 16 + b[1] / 16) as nat);
        lemma_digit_ok(((b[1] % 16) * 4 + b[2] / 64) as nat);
        lemma_digit_ok((b[2] % 64) as nat);
        let s = crate::encoding::base64(b, true, false);
        let rest = crate::encoding::base64(b.skip(3), true, false);
        assert forall|i: int| 0 <= i < s.len() implies confirmation_char(#[trigger] s[i]) && (s[i] as u32)
            < 0x80 by {
            if i >= 4 {
                assert(s[i] == rest[i - 4]);
            }
        }
    }
}

proof fn lemma_ascii_utf8_len(s: Seq<char>)
    requires
        forall|i: int| 0 <= i < s.len() ==> (#[trigger] s[i] as u32) < 0x80,
    ensures
        text::utf8_len(s) == s.len(),
    decreases s.len(),
{
    if s.len() > 0 {
        assert forall|i: int| 0 <= i < s.drop_last().len() implies (#[trigger] s.drop_last()[i] as u32)
            < 0x80 by {
            assert(s.drop_last()[i] == s[i]);
        }
        lemma_ascii_utf8_len(s.drop_last());
        assert((s[s.len() - 1] as u32) < 0x80);
    }
}

// ---------------------------------------------------------------------------
// Diagnostic snapshots
// ---------------------------------------------------------------------------

pub const TEXT_LIMIT: usize = 196608;

pub const TOOL_TEXT_LIMIT: usize = 32768;

/// The script of a snapshot and its time limit in seconds.
pub fn diagnostic_command(kind: IosDiagnosticKind, syslog_lines: Option<u16>) -> (r: (String, u64))
    ensures
        r.0@ == match kind {
            IosDiagnosticKind::Overview => overview_script(),
            IosDiagnosticKind::Processes => process_script(),
            IosDiagnosticKind::Tools => tools_script(),
            IosDiagnosticKind::Syslog => syslog_script(
                match syslog_lines {
                    Some(n) => if n < 20 {
                        20u16
                    } else if n > 400 {
                        400u16
                    } else {
                        n
                    },
                    None => 120u16,
                },
            ),
        },
        r.1 == match kind {
            IosDiagnosticKind::Syslog => 30u64,
            _ => 20u64,
        },
{
    match kind {
        IosDiagnosticKind::Overview => (text::copy_str(overview_command()), 20),
        IosDiagnosticKind::Processes => (text::copy_str(process_command()), 20),
        IosDiagnosticKind::Tools => (text::copy_str(tools_command()), 20),
        IosDiagnosticKind::Syslog => (syslog_command(clamp_syslog_lines(syslog_lines)), 30),
    }
}

pub open spec fn count_available(v: Seq<ToolView>) -> nat
    decreases v.len(),
{
    if v.len() == 0 {
        0
    } else {
        count_available(v.drop_last()) + if v.last().2 {
            1nat
        } else {
            0nat
        }
    }
}

/// The title, source, output (and whether it was cut) and tools of a
/// snapshot, from the script's standard output.
pub open spec fn snapshot_parts(kind: IosDiagnosticKind, stdout: Seq<char>) -> (
    Seq<char>,
    Seq<char>,
    (Seq<char>, bool),
    Seq<ToolView>,
) {
    match kind {
        IosDiagnosticKind::Overview => (
            "设备概览"@,
            "SSH 固定只读诊断"@,
            sanitized_output(
                text::join(lines_without(text::lines(stdout), "MOBIUS_IOS_DIAGNOSTIC"@), seq!['\n']),
                TEXT_LIMIT as nat,
            ),
            Seq::empty(),
        ),
        IosDiagnosticKind::Processes => (
            "进程快照"@,
            "ps / launchd 只读快照（最多 1200 行）"@,
            sanitized_output(
                text::join(lines_without(text::lines(stdout), "MOBIUS_IOS_DIAGNOSTIC"@), seq!['\n']),
                TEXT_LIMIT as nat,
            ),
            Seq::empty(),
        ),
        IosDiagnosticKind::Tools => {
            let tools = tool_scan(crate::ios_apps::first_n(text::lines(stdout), 128));
            (
                "调试工具状态"@,
                "固定绝对路径清单（不启动工具）"@,
                sanitized_output(
                    "已检测 "@ + text::decimal(tools.len()) + " 项，"@ + text::decimal(
                        count_available(tools),
                    ) + " 项可用。"@,
                    TOOL_TEXT_LIMIT as nat,
                ),
                tools,
            )
        },
        IosDiagnosticKind::Syslog => {
            let scan = log_source_scan(text::lines(stdout));
            (
                "最近系统日志"@,
                scan.0,
                sanitized_output(text::join(scan.1, seq!['\n']), TEXT_LIMIT as nat),
                Seq::empty(),
            )
        },
    }
}

/// The warnings of a snapshot: a syslog without a source or without lines,
/// a cut output, and the device's standard error (sanitized, 4 KiB).
pub open spec fn snapshot_warnings(kind: IosDiagnosticKind, stdout: Seq<char>, stderr: Seq<char>, truncated: bool) -> Seq<Seq<char>> {
    let parts = snapshot_parts(kind, stdout);
    (if kind == IosDiagnosticKind::Syslog {
        if parts.1 == "不可用"@ {
            seq!["设备未提供可用的统一日志查询或 /var/log/syslog。"@]
        } else if text::trim(parts.2.0).len() == 0 {
            seq!["指定时间范围内没有读取到日志。"@]
        } else {
            Seq::empty()
        }
    } else {
        Seq::empty()
    }) + (if truncated {
        seq!["输出已在安全上限处截断；可再次刷新获取最新快照。"@]
    } else {
        Seq::empty()
    }) + (if text::trim(stderr).len() > 0 {
        seq!["设备返回提示："@ + text::trim(sanitized_output(stderr, 4096).0)]
    } else {
        Seq::empty()
    })
}

fn count_available_exec(tools: &Vec<IosDiagnosticToolStatus>) -> (r: usize)
    ensures
        r == count_available(tools@.map_values(|t: IosDiagnosticToolStatus| tool_view(t))),
{
    let ghost v = tools@.map_values(|t: IosDiagnosticToolStatus| tool_view(t));
    let mut n: usize = 0;
    let mut i: usize = 0;
    while i < tools.len()
        invariant
            i <= tools@.len(),
            v == tools@.map_values(|t: IosDiagnosticToolStatus| tool_view(t)),
            n == count_available(v.take(i as int)),
            n <= i,
        decreases tools@.len() - i,
    {
        assert(v.take(i + 1).drop_last() =~= v.take(i as int));
        assert(v.take(i + 1).last().2 == tools@[i as int].available);
        if tools[i].available {
            n = n + 1;
        }
        i = i + 1;
    }
    assert(v.take(tools@.len() as int) =~= v);
    n
}

/// A snapshot from the script's output; `response_truncated` says whether
/// the runner already cut the output.
pub fn diagnostic_result(kind: IosDiagnosticKind, stdout: &str, stderr: &str, response_truncated: bool) -> (r:
    IosDiagnosticResult)
    ensures
        ({
            let parts = snapshot_parts(kind, stdout@);
            let truncated = parts.2.1 || response_truncated;
            &&& r.success
            &&& r.kind == kind
            &&& r.title@ == parts.0
            &&& r.source@ == parts.1
            &&& r.output@ == parts.2.0
            &&& r.truncated == truncated
            &&& r.tools@.map_values(|t: IosDiagnosticToolStatus| tool_view(t)) == parts.3
            &&& text::string_views(r.warnings@) == snapshot_warnings(kind, stdout@, stderr@, truncated)
        }),
{
    let ghost parts = snapshot_parts(kind, stdout@);
    let mut warnings: Vec<String> = Vec::new();
    let (title, source, output, cut, tools): (String, String, String, bool, Vec<IosDiagnosticToolStatus>) =
        match kind {
        IosDiagnosticKind::Overview => {
            let body = remove_marker(stdout, "MOBIUS_IOS_DIAGNOSTIC");
            let (output, cut) = sanitize_and_limit(body.as_str(), TEXT_LIMIT);
            (text::copy_str("设备概览"), text::copy_str("SSH 固定只读诊断"), output, cut, Vec::new())
        },
        IosDiagnosticKind::Processes => {
            let body = remove_marker(stdout, "MOBIUS_IOS_DIAGNOSTIC");
            let (output, cut) = sanitize_and_limit(body.as_str(), TEXT_LIMIT);
            (
                text::copy_str("进程快照"),
                text::copy_str("ps / launchd 只读快照（最多 1200 行）"),
                output,
                cut,
                Vec::new(),
            )
        },
        IosDiagnosticKind::Tools => {
            let tools = parse_tool_statuses(stdout);
            let available = count_available_exec(&tools);
            let mut summary = text::chars_of("已检测 ");
            text::append(&mut summary, &text::decimal_exec(tools.len() as u64));
            text::append_str(&mut summary, " 项，");
            text::append(&mut summary, &text::decimal_exec(available as u64));
            text::append_str(&mut summary, " 项可用。");
            let (output, cut) = sanitize_and_limit(text::string_of(&summary).as_str(), TOOL_TEXT_LIMIT);
            (text::copy_str("调试工具状态"), text::copy_str("固定绝对路径清单（不启动工具）"), output, cut, tools)
        },
        IosDiagnosticKind::Syslog => {
            let (source, body) = parse_log_source(stdout);
            let (output, cut) = sanitize_and_limit(body.as_str(), TEXT_LIMIT);
            if text::eq_str_str(source.as_str(), "不可用") {
                text::push_str(&mut warnings, "设备未提供可用的统一日志查询或 /var/log/syslog。");
            } else if text::trim_exec(&text::chars_of(output.as_str())).len() == 0 {
                text::push_str(&mut warnings, "指定时间范围内没有读取到日志。");
            }
            (text::copy_str("最近系统日志"), source, output, cut, Vec::new())
        },
    };
    let truncated = cut || response_truncated;
    let ghost w0 = text::string_views(warnings@);
    if truncated {
        text::push_str(&mut warnings, "输出已在安全上限处截断；可再次刷新获取最新快照。");
    }
    let ghost w1 = text::string_views(warnings@);
    let se = text::chars_of(stderr);
    if text::trim_exec(&se).len() > 0 {
        let (clean, _) = sanitize_and_limit(stderr, 4096);
        let trimmed = text::trim_exec(&text::chars_of(clean.as_str()));
        text::push_string(&mut warnings, text::concat_strs("设备返回提示：", text::string_of(&trimmed).as_str()));
    }
    proof {
        assert(tools@.map_values(|t: IosDiagnosticToolStatus| tool_view(t)) =~= parts.3);
        assert(text::string_views(warnings@) =~= snapshot_warnings(kind, stdout@, stderr@, truncated));
    }
    IosDiagnosticResult { success: true, kind, title, output, truncated, source, tools, warnings }
}

/// The overview script.
pub const OVERVIEW: &'static str = r#"printf 'MOBIUS_IOS_DIAGNOSTIC\n'
printf '[Kernel]\n'
if [ -x /usr/bin/uname ]; then /usr/bin/uname -a 2>&1 || true; elif [ -x /bin/uname ]; then /bin/uname -a 2>&1 || true; else printf 'Unavailable\n'; fi
printf '\n[System version]\n'
if [ -x /usr/bin/sw_vers ]; then /usr/bin/sw_vers 2>&1 || true; elif [ -r /System/Library/CoreServices/SystemVersion.plist ] && [ -x /usr/bin/plutil ]; then /usr/bin/plutil -p /System/Library/CoreServices/SystemVersion.plist 2>&1 || true; elif [ -r /System/Library/CoreServices/SystemVersion.plist ] && [ -x /var/jb/usr/bin/plutil ]; then /var/jb/usr/bin/plutil -p /System/Library/CoreServices/SystemVersion.plist 2>&1 || true; else printf 'Unavailable\n'; fi
printf '\n[Identity]\n'
if [ -x /usr/bin/id ]; then /usr/bin/id 2>&1 || true; elif [ -x /bin/id ]; then /bin/id 2>&1 || true; elif [ -x /var/jb/usr/bin/id ]; then /var/jb/usr/bin/id 2>&1 || true; else printf 'Unavailable\n'; fi
printf '\n[Hardware]\n'
if [ -x /usr/sbin/sysctl ]; then /usr/sbin/sysctl -n hw.machine hw.model hw.memsize kern.osversion 2>&1 || true; elif [ -x /var/jb/usr/sbin/sysctl ]; then /var/jb/usr/sbin/sysctl -n hw.machine hw.model hw.memsize kern.osversion 2>&1 || true; else printf 'Unavailable\n'; fi
printf '\n[Uptime]\n'
if [ -x /usr/bin/uptime ]; then /usr/bin/uptime 2>&1 || true; elif [ -x /var/jb/usr/bin/uptime ]; then /var/jb/usr/bin/uptime 2>&1 || true; else printf 'Unavailable\n'; fi
printf '\n[Disk]\n'
if [ -x /bin/df ]; then /bin/df -h / /private/var 2>&1 || /bin/df -h 2>&1 || true; elif [ -x /var/jb/bin/df ]; then /var/jb/bin/df -h / /private/var 2>&1 || /var/jb/bin/df -h 2>&1 || true; else printf 'Unavailable\n'; fi
printf '\n[Memory]\n'
if [ -x /usr/bin/vm_stat ]; then /usr/bin/vm_stat 2>&1 || true; elif [ -x /usr/sbin/sysctl ]; then /usr/sbin/sysctl hw.memsize 2>&1 || true; elif [ -x /var/jb/usr/sbin/sysctl ]; then /var/jb/usr/sbin/sysctl hw.memsize 2>&1 || true; else printf 'Unavailable\n'; fi
true"#;

/// The process script.
pub const PROCESSES: &'static str = r#"printf 'MOBIUS_IOS_DIAGNOSTIC\n'
printf '[Processes]\n'
mobius_ps=''
for mobius_candidate in /bin/ps /usr/bin/ps /var/jb/bin/ps /var/jb/usr/bin/ps; do if [ -x "$mobius_candidate" ]; then mobius_ps="$mobius_candidate"; break; fi; done
mobius_head=''
for mobius_candidate in /usr/bin/head /bin/head /var/jb/usr/bin/head; do if [ -x "$mobius_candidate" ]; then mobius_head="$mobius_candidate"; break; fi; done
if [ -z "$mobius_head" ]; then printf 'Unavailable\n'; elif [ -n "$mobius_ps" ] && "$mobius_ps" auxww >/dev/null 2>&1; then "$mobius_ps" auxww 2>/dev/null | "$mobius_head" -n 1200; elif [ -n "$mobius_ps" ] && "$mobius_ps" -ef >/dev/null 2>&1; then "$mobius_ps" -ef 2>/dev/null | "$mobius_head" -n 1200; elif [ -n "$mobius_ps" ]; then "$mobius_ps" -A 2>/dev/null | "$mobius_head" -n 1200; elif [ -x /bin/launchctl ]; then printf '[ps unavailable; launchd service/process snapshot]\n'; /bin/launchctl print system 2>/dev/null | "$mobius_head" -n 1200; else printf 'Unavailable\n'; fi
true"#;

/// The tool script.
pub const TOOLS: &'static str = r#"printf 'MOBIUS_IOS_DIAGNOSTIC\n'
mobius_find() {
  mobius_path=''
  for mobius_candidate in "$@"; do
    case "$mobius_candidate" in /*) ;; *) continue ;; esac
    if [ -x "$mobius_candidate" ]; then mobius_path="$mobius_candidate"; break; fi
  done
  printf '%s' "$mobius_path"
}
mobius_emit() {
  mobius_id="$1"
  shift
  mobius_path=$(mobius_find "$@")
  printf 'MOBIUS_TOOL|%s|%s||\n' "$mobius_id" "$mobius_path"
}
mobius_emit frida-server /usr/sbin/frida-server /usr/local/bin/frida-server /var/jb/usr/sbin/frida-server
mobius_emit sshd /usr/sbin/sshd /var/jb/usr/sbin/sshd
mobius_emit lldb /usr/bin/lldb /var/jb/usr/bin/lldb
mobius_emit debugserver /usr/bin/debugserver /Developer/usr/bin/debugserver /var/jb/usr/bin/debugserver
mobius_emit dpkg /usr/bin/dpkg /var/jb/usr/bin/dpkg
mobius_emit ldid /usr/bin/ldid /var/jb/usr/bin/ldid
mobius_emit otool /usr/bin/otool /var/jb/usr/bin/otool
mobius_emit log /usr/bin/log
mobius_emit plutil /usr/bin/plutil /var/jb/usr/bin/plutil
true"#;

/// The syslog script up to its first line count.
pub const SYSLOG_HEAD: &'static str = r#"printf 'MOBIUS_IOS_DIAGNOSTIC\n'
mobius_tail=''
for mobius_candidate in /usr/bin/tail /bin/tail /var/jb/usr/bin/tail; do if [ -x "$mobius_candidate" ]; then mobius_tail="$mobius_candidate"; break; fi; done
if [ -x /usr/bin/log ] && [ -n "$mobius_tail" ] && /usr/bin/log show --help >/dev/null 2>&1; then
  printf 'MOBIUS_LOG_SOURCE|Unified log · 最近 5 分钟\n'
  /usr/bin/log show --last 5m --style compact 2>/dev/null | "$mobius_tail" -n "#;

/// The syslog script between its two line counts.
pub const SYSLOG_MIDDLE: &'static str = r#"
elif [ -r /var/log/syslog ] && [ -n "$mobius_tail" ]; then
  printf 'MOBIUS_LOG_SOURCE|/var/log/syslog\n'
  "$mobius_tail" -n "#;

/// The syslog script after its second line count.
pub const SYSLOG_TAIL: &'static str = r#" /var/log/syslog 2>/dev/null || true
else
  printf 'MOBIUS_LOG_SOURCE|不可用\n'
fi
true"#;

/// The respring action: checks for root, acknowledges, then reloads SpringBoard a second later.
pub const RESPRING: &'static str = r#"mobius_id=''
for mobius_candidate in /usr/bin/id /bin/id /var/jb/usr/bin/id; do if [ -x "$mobius_candidate" ]; then mobius_id="$mobius_candidate"; break; fi; done
[ -n "$mobius_id" ] && [ "$("$mobius_id" -u 2>/dev/null)" = "0" ] || exit 77
mobius_respring=''
for mobius_candidate in /usr/bin/sbreload /usr/local/bin/sbreload /var/jb/usr/bin/sbreload /var/jb/basebin/sbreload; do if [ -x "$mobius_candidate" ]; then mobius_respring="$mobius_candidate"; break; fi; done
mobius_killall=''
for mobius_candidate in /usr/bin/killall /bin/killall /var/jb/usr/bin/killall; do if [ -x "$mobius_candidate" ]; then mobius_killall="$mobius_candidate"; break; fi; done
mobius_sleep=''
for mobius_candidate in /bin/sleep /usr/bin/sleep /var/jb/bin/sleep; do if [ -x "$mobius_candidate" ]; then mobius_sleep="$mobius_candidate"; break; fi; done
if [ -n "$mobius_sleep" ] && [ -n "$mobius_respring" ]; then printf 'MOBIUS_IOS_ACTION_ACCEPTED\n'; ("$mobius_sleep" 1; "$mobius_respring") >/dev/null 2>&1 & elif [ -n "$mobius_sleep" ] && [ -n "$mobius_killall" ]; then printf 'MOBIUS_IOS_ACTION_ACCEPTED\n'; ("$mobius_sleep" 1; "$mobius_killall" -9 SpringBoard) >/dev/null 2>&1 & else exit 78; fi"#;

/// The reboot action: checks for root, acknowledges, then reboots a second later.
pub const REBOOT: &'static str = r#"mobius_id=''
for mobius_candidate in /usr/bin/id /bin/id /var/jb/usr/bin/id; do if [ -x "$mobius_candidate" ]; then mobius_id="$mobius_candidate"; break; fi; done
[ -n "$mobius_id" ] && [ "$("$mobius_id" -u 2>/dev/null)" = "0" ] || exit 77
mobius_reboot=''
for mobius_candidate in /sbin/reboot /usr/sbin/reboot /usr/bin/reboot /var/jb/sbin/reboot /var/jb/usr/sbin/reboot /var/jb/usr/bin/reboot; do if [ -x "$mobius_candidate" ]; then mobius_reboot="$mobius_candidate"; break; fi; done
mobius_sleep=''
for mobius_candidate in /bin/sleep /usr/bin/sleep /var/jb/bin/sleep; do if [ -x "$mobius_candidate" ]; then mobius_sleep="$mobius_candidate"; break; fi; done
[ -n "$mobius_reboot" ] && [ -n "$mobius_sleep" ] || exit 78
printf 'MOBIUS_IOS_ACTION_ACCEPTED\n'
("$mobius_sleep" 1; "$mobius_reboot") >/dev/null 2>&1 &"#;

} // verus!
