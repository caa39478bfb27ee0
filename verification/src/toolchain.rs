//! Where a host tool is found: the order of the search and the rules on
//! configured paths and tool names.
use crate::error::{is_error, ApiError};
use crate::models::ToolchainConfiguration;
use crate::text;
use vstd::prelude::*;

verus! {

/// Where a resolved tool came from.
#[derive(Debug, Clone, Copy, PartialEq, Eq, Structural)]
pub enum ToolSource {
    Configured,
    Bundled,
    Sdk,
    Path,
}

pub open spec fn source_name(s: ToolSource) -> Seq<char> {
    match s {
        ToolSource::Configured => "configured"@,
        ToolSource::Bundled => "bundled"@,
        ToolSource::Sdk => "sdk"@,
        ToolSource::Path => "path"@,
    }
}

impl ToolSource {
    pub fn as_str(self) -> (r: &'static str)
        ensures
            r@ == source_name(self),
    {
        match self {
            ToolSource::Configured => "configured",
            ToolSource::Bundled => "bundled",
            ToolSource::Sdk => "sdk",
            ToolSource::Path => "path",
        }
    }
}


// ---------------------------------------------------------------------------
// Tool names
// ---------------------------------------------------------------------------

pub open spec fn tool_name_char(c: char) -> bool {
    text::is_alnum(c) || c == '-' || c == '_'
}

/// A tool name: one or more ASCII letters, digits, `-` and `_`.
pub open spec fn tool_name_ok(s: Seq<char>) -> bool {
    s.len() > 0 && forall|i: int| 0 <= i < s.len() ==> tool_name_char(#[trigger] s[i])
}

/// Rejects a tool name that could leave the searched directories.
pub fn validate_tool_name(program: &str) -> (r: Result<(), ApiError>)
    ensures
        tool_name_ok(program@) ==> r is Ok,
        !tool_name_ok(program@) ==> (r matches Err(e) && is_error(
            e,
            "invalid_tool_name"@,
            "External tool name contains unsupported characters"@,
        )),
{
    let cs = text::chars_of(program);
    let mut ok = cs.len() > 0;
    let mut i: usize = 0;
    while i < cs.len()
        invariant
            i <= cs@.len(),
            ok == (cs@.len() > 0 && forall|j: int| 0 <= j < i ==> tool_name_char(#[trigger] cs@[j])),
        decreases cs@.len() - i,
    {
        let c = cs[i];
        if !(text::is_alnum_exec(c) || c == '-' || c == '_') {
            ok = false;
        }
        i = i + 1;
    }
    if !ok {
        return Err(
            ApiError::new("invalid_tool_name", "External tool name contains unsupported characters"),
        );
    }
    Ok(())
}

/// The tools also searched for in the configured iOS tools directory.
pub open spec fn ios_tool(s: Seq<char>) -> bool {
    ||| s == "idevice_id"@
    ||| s == "ideviceinfo"@
    ||| s == "idevicepair"@
    ||| s == "ideviceinstaller"@
    ||| s == "idevicescreenshot"@
    ||| s == "idevicesyslog"@
    ||| s == "iproxy"@
    ||| s == "ssh"@
    ||| s == "scp"@
}

pub fn is_ios_tool(program: &str) -> (r: bool)
    ensures
        r == ios_tool(program@),
{
    text::eq_str_str(program, "idevice_id") || text::eq_str_str(program, "ideviceinfo")
        || text::eq_str_str(program, "idevicepair") || text::eq_str_str(program, "ideviceinstaller")
        || text::eq_str_str(program, "idevicescreenshot") || text::eq_str_str(program, "idevicesyslog")
        || text::eq_str_str(program, "iproxy") || text::eq_str_str(program, "ssh")
        || text::eq_str_str(program, "scp")
}

// ---------------------------------------------------------------------------
// Configured locations
// ---------------------------------------------------------------------------

/// The exact executable configured for a tool: only adb, scrcpy and frida
/// have one.
pub open spec fn configured_file_of(c: ToolchainConfiguration, program: Seq<char>) -> Option<Seq<char>> {
    if program == "adb"@ {
        text::opt_view(c.adb_path)
    } else if program == "scrcpy"@ {
        text::opt_view(c.scrcpy_path)
    } else if program == "frida"@ {
        text::opt_view(c.frida_path)
    } else {
        None
    }
}

fn copy_opt(o: &Option<String>) -> (r: Option<String>)
    ensures
        text::opt_view(r) == text::opt_view(*o),
{
    match o {
        Some(s) => Some(text::copy_string(s)),
        None => None,
    }
}

pub fn configured_file(configuration: &ToolchainConfiguration, program: &str) -> (r: Option<String>)
    ensures
        text::opt_view(r) == configured_file_of(*configuration, program@),
{
    if text::eq_str_str(program, "adb") {
        copy_opt(&configuration.adb_path)
    } else if text::eq_str_str(program, "scrcpy") {
        copy_opt(&configuration.scrcpy_path)
    } else if text::eq_str_str(program, "frida") {
        copy_opt(&configuration.frida_path)
    } else {
        None
    }
}

/// The configured directories searched for a tool: the managed tools
/// directory, then, for an iOS tool, the iOS tools directory.
pub open spec fn configured_dirs(c: ToolchainConfiguration, program: Seq<char>) -> Seq<Seq<char>> {
    let managed = match c.managed_tools_path {
        Some(p) => seq![p@],
        None => Seq::empty(),
    };
    let ios = match c.ios_tools_path {
        Some(p) => if ios_tool(program) {
            seq![p@]
        } else {
            Seq::empty()
        },
        None => Seq::empty(),
    };
    managed + ios
}

pub fn configured_directories(configuration: &ToolchainConfiguration, program: &str) -> (r: Vec<String>)
    ensures
        text::string_views(r@) == configured_dirs(*configuration, program@),
{
    let mut out: Vec<String> = Vec::new();
    match &configuration.managed_tools_path {
        Some(p) => text::push_string(&mut out, text::copy_string(p)),
        None => {},
    }
    match &configuration.ios_tools_path {
        Some(p) => {
            if is_ios_tool(program) {
                text::push_string(&mut out, text::copy_string(p));
            }
        },
        None => {},
    }
    assert(text::string_views(out@) =~= configured_dirs(*configuration, program@));
    out
}

/// `Path::join` of a relative path: a separator is added unless the base is
/// empty or already ends in one; an absolute path replaces the base.
pub open spec fn path_join(base: Seq<char>, rel: Seq<char>) -> Seq<char> {
    if text::starts_with(rel, "/"@) || base.len() == 0 {
        rel
    } else if text::ends_with(base, "/"@) {
        base + rel
    } else {
        base + "/"@ + rel
    }
}

pub fn join_path(base: &str, rel: &str) -> (r: String)
    ensures
        r@ == path_join(base@, rel@),
{
    let b = text::chars_of(base);
    let r = text::chars_of(rel);
    if text::starts_with_str(&r, "/") || b.len() == 0 {
        return text::copy_str(rel);
    }
    let mut out = b;
    if !text::ends_with_str(&out, "/") {
        text::append_str(&mut out, "/");
    }
    text::append(&mut out, &r);
    text::string_of(&out)
}

/// Under each bundled root: `{os}-{arch}`, `{os}/{arch}`, `common`, and the
/// root itself.
pub open spec fn bundled_dirs(roots: Seq<Seq<char>>, os: Seq<char>, arch: Seq<char>) -> Seq<Seq<char>>
    decreases roots.len(),
{
    if roots.len() == 0 {
        Seq::empty()
    } else {
        let r = roots.last();
        bundled_dirs(roots.drop_last(), os, arch) + seq![
            path_join(r, os + "-"@ + arch),
            path_join(path_join(r, os), arch),
            path_join(r, "common"@),
            r,
        ]
    }
}

pub fn bundled_search_directories(roots: &[String], os: &str, arch: &str) -> (r: Vec<String>)
    ensures
        text::string_views(r@) == bundled_dirs(text::string_views(roots@), os@, arch@),
{
    let target = text::concat_strs(text::concat_strs(os, "-").as_str(), arch);
    let mut out: Vec<String> = Vec::new();
    let mut i: usize = 0;
    while i < roots.len()
        invariant
            i <= roots@.len(),
            target@ == os@ + "-"@ + arch@,
            text::string_views(out@) == bundled_dirs(text::string_views(roots@.take(i as int)), os@, arch@),
        decreases roots@.len() - i,
    {
        let root = roots[i].as_str();
        assert(text::string_views(roots@.take(i + 1)).drop_last() =~= text::string_views(roots@.take(i as int)));
        let ghost before = text::string_views(out@);
        text::push_string(&mut out, join_path(root, target.as_str()));
        text::push_string(&mut out, join_path(join_path(root, os).as_str(), arch));
        text::push_string(&mut out, join_path(root, "common"));
        text::push_string(&mut out, text::copy_str(root));
        assert(text::string_views(out@) =~= bundled_dirs(text::string_views(roots@.take(i + 1)), os@, arch@));
        i = i + 1;
    }
    assert(roots@.take(roots@.len() as int) =~= roots@);
    out
}

// ---------------------------------------------------------------------------
// Android SDK directories
// ---------------------------------------------------------------------------

/// The value of a run of digits, when it fits in a `u64`.
pub open spec fn run_value(run: Seq<char>) -> Seq<u64> {
    match text::parse_uint(run, u64::MAX as nat) {
        Some(v) => seq![v as u64],
        None => Seq::empty(),
    }
}

/// The numbers of a directory name: its runs of ASCII digits, each that
/// fits in a `u64`, in order (`30.0.3` gives 30, 0, 3).
pub open spec fn version_key_from(s: Seq<char>, run: Seq<char>) -> Seq<u64>
    decreases s.len(),
{
    if s.len() == 0 {
        run_value(run)
    } else if text::is_digit(s[0]) {
        version_key_from(s.drop_first(), run.push(s[0]))
    } else {
        run_value(run) + version_key_from(s.drop_first(), Seq::empty())
    }
}

pub open spec fn version_key(name: Seq<char>) -> Seq<u64> {
    version_key_from(name, Seq::empty())
}

fn run_value_exec(run: &[char]) -> (r: Vec<u64>)
    ensures
        r@ == run_value(run@),
{
    let mut out: Vec<u64> = Vec::new();
    match text::parse_uint_exec(run, u64::MAX) {
        Some(v) => out.push(v),
        None => {},
    }
    assert(out@ =~= run_value(run@));
    out
}

/// The sort key of a versioned directory name.
pub fn version_path_key(name: &str) -> (r: Vec<u64>)
    ensures
        r@ == version_key(name@),
{
    let cs = text::chars_of(name);
    let mut out: Vec<u64> = Vec::new();
    let mut run: Vec<char> = Vec::new();
    let mut i: usize = 0;
    assert(cs@.skip(0) =~= cs@);
    while i < cs.len()
        invariant
            i <= cs@.len(),
            out@ + version_key_from(cs@.skip(i as int), run@) == version_key(cs@),
        decreases cs@.len() - i,
    {
        let c = cs[i];
        let ghost rest = cs@.skip(i as int);
        assert(rest.drop_first() =~= cs@.skip(i + 1));
        if text::is_digit_exec(c) {
            run.push(c);
        } else {
            let v = run_value_exec(&run);
            let ghost old_out = out@;
            let mut k: usize = 0;
            while k < v.len()
                invariant
                    k <= v@.len(),
                    out@ == old_out + v@.take(k as int),
                decreases v@.len() - k,
            {
                out.push(v[k]);
                assert(v@.take(k + 1) =~= v@.take(k as int).push(v@[k as int]));
                k = k + 1;
            }
            assert(v@.take(v@.len() as int) =~= v@);
            assert(out@ + version_key_from(cs@.skip(i + 1), Seq::empty()) =~= old_out + (v@
                + version_key_from(cs@.skip(i + 1), Seq::empty())));
            run = Vec::new();
        }
        i = i + 1;
    }
    let v = run_value_exec(&run);
    let ghost old_out = out@;
    let mut k: usize = 0;
    while k < v.len()
        invariant
            k <= v@.len(),
            out@ == old_out + v@.take(k as int),
        decreases v@.len() - k,
    {
        out.push(v[k]);
        assert(v@.take(k + 1) =~= v@.take(k as int).push(v@[k as int]));
        k = k + 1;
    }
    assert(v@.take(v@.len() as int) =~= v@);
    assert(cs@.skip(cs@.len() as int) =~= Seq::<char>::empty());
    out
}

/// The order of `Vec<u64>`: lexicographic, a proper prefix first.
pub open spec fn key_lt(a: Seq<u64>, b: Seq<u64>) -> bool
    decreases a.len(),
{
    if a.len() == 0 {
        b.len() > 0
    } else if b.len() == 0 {
        false
    } else if a[0] != b[0] {
        a[0] < b[0]
    } else {
        key_lt(a.drop_first(), b.drop_first())
    }
}

pub proof fn lemma_key_irreflexive(a: Seq<u64>)
    ensures
        !key_lt(a, a),
    decreases a.len(),
{
    if a.len() > 0 {
        lemma_key_irreflexive(a.drop_first());
    }
}

pub proof fn lemma_key_transitive(a: Seq<u64>, b: Seq<u64>, c: Seq<u64>)
    requires
        key_lt(a, b),
        key_lt(b, c),
    ensures
        key_lt(a, c),
    decreases a.len(),
{
    if a.len() > 0 && b.len() > 0 && c.len() > 0 && a[0] == b[0] && b[0] == c[0] {
        lemma_key_transitive(a.drop_first(), b.drop_first(), c.drop_first());
    }
}

pub proof fn lemma_key_total(a: Seq<u64>, b: Seq<u64>)
    ensures
        a == b || key_lt(a, b) || key_lt(b, a),
    decreases a.len(),
{
    if a.len() > 0 && b.len() > 0 && a[0] == b[0] {
        lemma_key_total(a.drop_first(), b.drop_first());
        if a.drop_first() == b.drop_first() {
            assert(a =~= seq![a[0]] + a.drop_first());
            assert(b =~= seq![b[0]] + b.drop_first());
        }
    }
    if a.len() == 0 && b.len() == 0 {
        assert(a =~= b);
    }
}

fn key_less(a: &[u64], b: &[u64]) -> (r: bool)
    ensures
        r == key_lt(a@, b@),
{
    let mut i: usize = 0;
    assert(a@.skip(0) =~= a@);
    assert(b@.skip(0) =~= b@);
    while i < a.len() && i < b.len() && a[i] == b[i]
        invariant
            i <= a@.len(),
            i <= b@.len(),
            key_lt(a@, b@) == key_lt(a@.skip(i as int), b@.skip(i as int)),
        decreases a@.len() - i,
    {
        assert(a@.skip(i as int).drop_first() =~= a@.skip(i + 1));
        assert(b@.skip(i as int).drop_first() =~= b@.skip(i + 1));
        i = i + 1;
    }
    if i == a.len() {
        i < b.len()
    } else if i == b.len() {
        false
    } else {
        a[i] < b[i]
    }
}

/// Newest first: no name is followed by one with a greater version key.
pub open spec fn newest_first(v: Seq<Seq<char>>) -> bool {
    forall|i: int, j: int|
        0 <= i < j < v.len() ==> !key_lt(version_key(#[trigger] v[i]), version_key(#[trigger] v[j]))
}

/// The versioned subdirectory names to search, newest first; `latest` is
/// searched separately and left out.
#[verifier::rlimit(30)]
pub fn order_versioned(names: &[String]) -> (r: Vec<String>)
    ensures
        newest_first(text::string_views(r@)),
        forall|x: Seq<char>|
            text::string_views(r@).contains(x) <==> (text::string_views(names@).contains(x) && x
                != "latest"@),
{
    let mut out: Vec<String> = Vec::new();
    let mut keys: Vec<Vec<u64>> = Vec::new();
    let mut i: usize = 0;
    let ghost all = text::string_views(names@);
    while i < names.len()
        invariant
            i <= names@.len(),
            all == text::string_views(names@),
            keys@.len() == out@.len(),
            forall|k: int| 0 <= k < keys@.len() ==> (#[trigger] keys@[k])@ == version_key(out@[k]@),
            newest_first(text::string_views(out@)),
            forall|x: Seq<char>|
                text::string_views(out@).contains(x) <==> (all.take(i as int).contains(x) && x
                    != "latest"@),
        decreases names@.len() - i,
    {
        let name = names[i].as_str();
        let ghost t0 = all.take(i as int);
        let ghost t1 = all.take(i + 1);
        assert(t1 =~= t0.push(name@));
        if !text::eq_str_str(name, "latest") {
            let key = version_path_key(name);
            let mut p: usize = 0;
            while p < out.len() && !key_less(&keys[p], &key)
                invariant
                    p <= out@.len(),
                    keys@.len() == out@.len(),
                    forall|k: int| 0 <= k < keys@.len() ==> (#[trigger] keys@[k])@ == version_key(out@[k]@),
                    key@ == version_key(name@),
                    forall|k: int| 0 <= k < p ==> !key_lt(version_key(#[trigger] out@[k]@), key@),
                decreases out@.len() - p,
            {
                p = p + 1;
            }
            let ghost old_v = text::string_views(out@);
            let ghost old_out = out@;
            let ghost old_keys = keys@;
            out.insert(p, text::copy_str(name));
            keys.insert(p, key);
            let ghost nv = text::string_views(out@);
            assert(nv =~= old_v.insert(p as int, name@));
            assert forall|k: int| 0 <= k < keys@.len() implies (#[trigger] keys@[k])@ == version_key(out@[k]@) by {
                if k < p {
                    assert(keys@[k] == old_keys[k]);
                } else if k > p {
                    assert(keys@[k] == old_keys[k - 1]);
                }
            }
            assert forall|a: int, b: int| 0 <= a < b < nv.len() implies !key_lt(
                version_key(#[trigger] nv[a]),
                version_key(#[trigger] nv[b]),
            ) by {
                let x = version_key(name@);
                if b == p {
                    assert(nv[a] == old_v[a]);
                } else if a == p {
                    assert(nv[b] == old_v[b - 1]);
                    assert(key_lt(version_key(old_v[p as int]), x));
                    if key_lt(x, version_key(old_v[b - 1])) {
                        if b - 1 == p {
                            lemma_key_transitive(version_key(old_v[p as int]), x, version_key(old_v[p as int]));
                            lemma_key_irreflexive(version_key(old_v[p as int]));
                        } else {
                            lemma_key_transitive(version_key(old_v[p as int]), x, version_key(old_v[b - 1]));
                        }
                    }
                } else if b < p {
                    assert(nv[a] == old_v[a]);
                    assert(nv[b] == old_v[b]);
                } else if a < p {
                    assert(nv[a] == old_v[a]);
                    assert(nv[b] == old_v[b - 1]);
                } else {
                    assert(nv[a] == old_v[a - 1]);
                    assert(nv[b] == old_v[b - 1]);
                }
            }
            assert forall|x: Seq<char>| nv.contains(x) <==> (t1.contains(x) && x != "latest"@) by {
                if nv.contains(x) {
                    let k = choose|k: int| 0 <= k < nv.len() && nv[k] == x;
                    if k < p {
                        assert(old_v[k] == x);
                    } else if k > p {
                        assert(old_v[k - 1] == x);
                    }
                }
                if old_v.contains(x) {
                    let k = choose|k: int| 0 <= k < old_v.len() && old_v[k] == x;
                    if k < p {
                        assert(nv[k] == x);
                    } else {
                        assert(nv[k + 1] == x);
                    }
                }
                if x == name@ {
                    assert(nv[p as int] == x);
                    assert(t1[i as int] == x);
                }
                if t1.contains(x) {
                    let k = choose|k: int| 0 <= k < i + 1 && #[trigger] t1[k] == x;
                    if k < i {
                        assert(t0[k] == x);
                    }
                }
                if t0.contains(x) {
                    let k = choose|k: int| 0 <= k < i && #[trigger] t0[k] == x;
                    assert(t1[k] == x);
                }
            }
        } else {
            proof {
                reveal_strlit("latest");
            }
            assert forall|x: Seq<char>| text::string_views(out@).contains(x) <==> (t1.contains(x) && x
                != "latest"@) by {
                if t1.contains(x) && x != "latest"@ {
                    let k = choose|k: int| 0 <= k < i + 1 && #[trigger] t1[k] == x;
                    assert(t0[k] == x);
                }
                if t0.contains(x) {
                    let k = choose|k: int| 0 <= k < i && #[trigger] t0[k] == x;
                    assert(t1[k] == x);
                }
            }
        }
        i = i + 1;
    }
    assert(all.take(names@.len() as int) =~= all);
    out
}

/// One Android SDK root with the versioned subdirectories found under its
/// `build-tools` and `cmdline-tools` directories, newest first.
#[derive(Debug, Clone)]
pub struct SdkRoot {
    pub root: String,
    pub build_tools: Vec<String>,
    pub cmdline_tools: Vec<String>,
}

/// `base` joined with each name, then with `tail` when it is not empty.
pub open spec fn joined(base: Seq<char>, names: Seq<Seq<char>>, tail: Seq<char>) -> Seq<Seq<char>>
    decreases names.len(),
{
    if names.len() == 0 {
        Seq::empty()
    } else {
        let d = path_join(base, names.last());
        joined(base, names.drop_last(), tail).push(
            if tail.len() == 0 {
                d
            } else {
                path_join(d, tail)
            },
        )
    }
}

/// The SDK directories searched for a tool under one root: `platform-tools`
/// for adb; each `build-tools` version for aapt2; `cmdline-tools/latest/bin`,
/// each `cmdline-tools` version's `bin`, and `tools/bin` for apkanalyzer.
pub open spec fn root_dirs(program: Seq<char>, r: SdkRoot) -> Seq<Seq<char>> {
    let root = r.root@;
    if program == "adb"@ {
        seq![path_join(root, "platform-tools"@)]
    } else if program == "aapt2"@ {
        joined(path_join(root, "build-tools"@), text::string_views(r.build_tools@), Seq::empty())
    } else if program == "apkanalyzer"@ {
        let tools = path_join(root, "cmdline-tools"@);
        seq![path_join(tools, "latest/bin"@)] + joined(tools, text::string_views(r.cmdline_tools@), "bin"@)
            + seq![path_join(root, "tools/bin"@)]
    } else {
        Seq::empty()
    }
}

pub open spec fn sdk_dirs(program: Seq<char>, roots: Seq<SdkRoot>) -> Seq<Seq<char>>
    decreases roots.len(),
{
    if roots.len() == 0 {
        Seq::empty()
    } else {
        sdk_dirs(program, roots.drop_last()) + root_dirs(program, roots.last())
    }
}

fn push_joined(out: &mut Vec<String>, base: &str, names: &[String], tail: &str)
    ensures
        text::string_views(final(out)@) == text::string_views(old(out)@) + joined(
            base@,
            text::string_views(names@),
            tail@,
        ),
{
    let ghost start = text::string_views(out@);
    let mut i: usize = 0;
    while i < names.len()
        invariant
            i <= names@.len(),
            text::string_views(out@) == start + joined(base@, text::string_views(names@.take(i as int)), tail@),
        decreases names@.len() - i,
    {
        assert(text::string_views(names@.take(i + 1)).drop_last() =~= text::string_views(names@.take(i as int)));
        let ghost n1 = text::string_views(names@.take(i + 1));
        assert(n1.last() == names@[i as int]@);
        let d = join_path(base, names[i].as_str());
        if text::chars_of(tail).len() == 0 {
            text::push_string(out, d);
        } else {
            text::push_string(out, join_path(d.as_str(), tail));
        }
        assert(text::string_views(out@) =~= start + joined(base@, text::string_views(names@.take(i + 1)), tail@));
        i = i + 1;
    }
    assert(names@.take(names@.len() as int) =~= names@);
}

/// The Android SDK directories searched for a tool, root by root.
pub fn android_sdk_directories(program: &str, roots: &[SdkRoot]) -> (r: Vec<String>)
    ensures
        text::string_views(r@) == sdk_dirs(program@, roots@),
{
    let mut out: Vec<String> = Vec::new();
    let mut i: usize = 0;
    while i < roots.len()
        invariant
            i <= roots@.len(),
            text::string_views(out@) == sdk_dirs(program@, roots@.take(i as int)),
        decreases roots@.len() - i,
    {
        assert(roots@.take(i + 1).drop_last() =~= roots@.take(i as int));
        let r = &roots[i];
        let root = r.root.as_str();
        let ghost before = text::string_views(out@);
        if text::eq_str_str(program, "adb") {
            text::push_string(&mut out, join_path(root, "platform-tools"));
            assert(text::string_views(out@) =~= before + root_dirs(program@, roots@[i as int]));
        } else if text::eq_str_str(program, "aapt2") {
            let base = join_path(root, "build-tools");
            push_joined(&mut out, base.as_str(), &r.build_tools, "");
            proof {
                reveal_strlit("");
                assert(""@ =~= Seq::<char>::empty());
            }
            assert(text::string_views(out@) =~= before + root_dirs(program@, roots@[i as int]));
        } else if text::eq_str_str(program, "apkanalyzer") {
            let tools = join_path(root, "cmdline-tools");
            text::push_string(&mut out, join_path(tools.as_str(), "latest/bin"));
            let ghost mid = text::string_views(out@);
            push_joined(&mut out, tools.as_str(), &r.cmdline_tools, "bin");
            let ghost mid2 = text::string_views(out@);
            text::push_string(&mut out, join_path(root, "tools/bin"));
            assert(text::string_views(out@) =~= before + root_dirs(program@, roots@[i as int]));
        } else {
            assert(text::string_views(out@) =~= before + root_dirs(program@, roots@[i as int]));
        }
        assert(text::string_views(out@) =~= before + root_dirs(program@, roots@[i as int]));
        i = i + 1;
    }
    assert(roots@.take(roots@.len() as int) =~= roots@);
    out
}

/// The file names tried for a tool in a directory: `.exe` and `.com` on
/// Windows, the bare name elsewhere.
pub open spec fn candidates(directory: Seq<char>, program: Seq<char>, windows: bool) -> Seq<Seq<char>> {
    if windows {
        seq![path_join(directory, program + ".exe"@), path_join(directory, program + ".com"@)]
    } else {
        seq![path_join(directory, program)]
    }
}

pub fn tool_candidates(directory: &str, program: &str, windows: bool) -> (r: Vec<String>)
    ensures
        text::string_views(r@) == candidates(directory@, program@, windows),
{
    let mut out: Vec<String> = Vec::new();
    if windows {
        text::push_string(&mut out, join_path(directory, text::concat_strs(program, ".exe").as_str()));
        text::push_string(&mut out, join_path(directory, text::concat_strs(program, ".com").as_str()));
    } else {
        text::push_string(&mut out, join_path(directory, program));
    }
    assert(text::string_views(out@) =~= candidates(directory@, program@, windows));
    out
}

/// The paths with each repeated one dropped after its first occurrence.
pub open spec fn first_occurrences(v: Seq<Seq<char>>) -> Seq<Seq<char>>
    decreases v.len(),
{
    if v.len() == 0 {
        Seq::empty()
    } else if v.drop_last().contains(v.last()) {
        first_occurrences(v.drop_last())
    } else {
        first_occurrences(v.drop_last()).push(v.last())
    }
}

pub proof fn lemma_first_occurrences_contains(v: Seq<Seq<char>>, x: Seq<char>)
    ensures
        first_occurrences(v).contains(x) <==> v.contains(x),
    decreases v.len(),
{
    if v.len() > 0 {
        lemma_first_occurrences_contains(v.drop_last(), x);
        let f = first_occurrences(v.drop_last());
        if v.contains(x) {
            let k = choose|k: int| 0 <= k < v.len() && v[k] == x;
            if k < v.len() - 1 {
                assert(v.drop_last()[k] == x);
            }
        }
        if v.drop_last().contains(x) {
            let k = choose|k: int| 0 <= k < v.len() - 1 && v.drop_last()[k] == x;
            assert(v[k] == x);
        }
        if f.push(v.last()).contains(x) {
            let k = choose|k: int| 0 <= k < f.len() + 1 && f.push(v.last())[k] == x;
            if k < f.len() {
                assert(f[k] == x);
            }
        }
        if f.contains(x) {
            let k = choose|k: int| 0 <= k < f.len() && f[k] == x;
            assert(f.push(v.last())[k] == x);
        }
        assert(f.push(v.last())[f.len() as int] == v.last());
    }
}

/// Drops repeated paths, keeping the first of each.
pub fn deduplicate_paths(paths: &[String]) -> (r: Vec<String>)
    ensures
        text::string_views(r@) == first_occurrences(text::string_views(paths@)),
{
    let mut out: Vec<String> = Vec::new();
    let mut i: usize = 0;
    let ghost all = text::string_views(paths@);
    while i < paths.len()
        invariant
            i <= paths@.len(),
            all == text::string_views(paths@),
            text::string_views(out@) == first_occurrences(all.take(i as int)),
        decreases paths@.len() - i,
    {
        let p = paths[i].as_str();
        let ghost t1 = all.take(i + 1);
        assert(t1.drop_last() =~= all.take(i as int));
        let mut seen = false;
        let mut k: usize = 0;
        while k < out.len() && !seen
            invariant
                k <= out@.len(),
                seen ==> text::string_views(out@).contains(p@),
                !seen ==> forall|j: int| 0 <= j < k ==> (#[trigger] out@[j])@ != p@,
            decreases out@.len() - k + (if seen { 0int } else { 1int }),
        {
            if text::eq_str_str(out[k].as_str(), p) {
                seen = true;
                assert(text::string_views(out@)[k as int] == p@);
            } else {
                k = k + 1;
            }
        }
        proof {
            lemma_first_occurrences_contains(all.take(i as int), p@);
            if !seen {
                assert forall|j: int| 0 <= j < text::string_views(out@).len() implies text::string_views(out@)[j] != p@ by {
                    assert(text::string_views(out@)[j] == out@[j]@);
                }
            }
        }
        if !seen {
            text::push_string(&mut out, text::copy_str(p));
        }
        i = i + 1;
    }
    assert(all.take(paths@.len() as int) =~= all);
    out
}

/// A configured value: trimmed, and dropped when nothing is left.
pub open spec fn non_empty_value(v: Option<String>) -> Option<Seq<char>> {
    match v {
        Some(s) => if text::trim(s@).len() > 0 {
            Some(text::trim(s@))
        } else {
            None
        },
        None => None,
    }
}

pub fn non_empty(value: Option<String>) -> (r: Option<String>)
    ensures
        text::opt_view(r) == non_empty_value(value),
{
    match value {
        Some(s) => {
            let cs = text::chars_of(s.as_str());
            let t = text::trim_exec(&cs);
            if t.len() > 0 {
                Some(text::string_of(&t))
            } else {
                None
            }
        },
        None => None,
    }
}

/// A directory searched for a tool, with the source it stands for.
#[derive(Debug, Clone)]
pub struct SearchDirectory {
    pub path: String,
    pub source: ToolSource,
}

pub open spec fn tagged(dirs: Seq<Seq<char>>, source: ToolSource) -> Seq<(Seq<char>, ToolSource)> {
    dirs.map_values(|d: Seq<char>| (d, source))
}

pub open spec fn search_views(v: Seq<SearchDirectory>) -> Seq<(Seq<char>, ToolSource)> {
    v.map_values(|d: SearchDirectory| (d.path@, d.source))
}

fn push_tagged(out: &mut Vec<SearchDirectory>, dirs: &[String], source: ToolSource)
    ensures
        search_views(final(out)@) == search_views(old(out)@) + tagged(text::string_views(dirs@), source),
{
    let ghost start = search_views(out@);
    let mut i: usize = 0;
    while i < dirs.len()
        invariant
            i <= dirs@.len(),
            search_views(out@) == start + tagged(text::string_views(dirs@.take(i as int)), source),
        decreases dirs@.len() - i,
    {
        let ghost old_out = out@;
        out.push(SearchDirectory { path: text::copy_string(&dirs[i]), source });
        assert(search_views(out@) =~= search_views(old_out).push((dirs@[i as int]@, source)));
        assert(text::string_views(dirs@.take(i + 1)) =~= text::string_views(dirs@.take(i as int)).push(dirs@[i as int]@));
        assert(tagged(text::string_views(dirs@.take(i + 1)), source) =~= tagged(text::string_views(dirs@.take(i as int)), source).push((dirs@[i as int]@, source)));
        assert(search_views(out@) =~= start + tagged(text::string_views(dirs@.take(i + 1)), source));
        i = i + 1;
    }
    assert(dirs@.take(dirs@.len() as int) =~= dirs@);
}

/// The directories searched when no exact file is configured, in order:
/// configured directories, bundled directories, Android SDK directories,
/// then the system `PATH`.
pub fn search_plan(
    configured: &[String],
    bundled: &[String],
    sdk: &[String],
    path: &[String],
) -> (r: Vec<SearchDirectory>)
    ensures
        search_views(r@) == tagged(text::string_views(configured@), ToolSource::Configured) + tagged(
            text::string_views(bundled@),
            ToolSource::Bundled,
        ) + tagged(text::string_views(sdk@), ToolSource::Sdk) + tagged(
            text::string_views(path@),
            ToolSource::Path,
        ),
{
    let mut out: Vec<SearchDirectory> = Vec::new();
    push_tagged(&mut out, configured, ToolSource::Configured);
    push_tagged(&mut out, bundled, ToolSource::Bundled);
    push_tagged(&mut out, sdk, ToolSource::Sdk);
    push_tagged(&mut out, path, ToolSource::Path);
    assert(search_views(out@) =~= tagged(text::string_views(configured@), ToolSource::Configured)
        + tagged(text::string_views(bundled@), ToolSource::Bundled) + tagged(text::string_views(sdk@), ToolSource::Sdk)
        + tagged(text::string_views(path@), ToolSource::Path));
    out
}

/// The error when the exactly configured executable cannot be used: no
/// other location is tried.
pub fn configured_tool_unavailable(program: &str, reason: &str) -> (e: ApiError)
    ensures
        is_error(
            e,
            "configured_tool_unavailable"@,
            "The configured "@ + program@ + " executable is unavailable: "@ + reason@,
        ),
{
    let mut m = text::chars_of("The configured ");
    text::append_str(&mut m, program);
    text::append_str(&mut m, " executable is unavailable: ");
    text::append_str(&mut m, reason);
    ApiError::with_message("configured_tool_unavailable", text::string_of(&m))
}

/// The error when no location holds the tool.
pub fn tool_not_found(program: &str) -> (e: ApiError)
    ensures
        is_error(
            e,
            "tool_not_found"@,
            "Unable to find "@ + program@
                + " in configured, bundled, Android SDK, or system PATH locations"@,
        ),
{
    let mut m = text::chars_of("Unable to find ");
    text::append_str(&mut m, program);
    text::append_str(&mut m, " in configured, bundled, Android SDK, or system PATH locations");
    ApiError::with_message("tool_not_found", text::string_of(&m))
}

/// A tool path must be absolute before anything is resolved.
pub fn check_absolute_tool_path(program: &str, absolute: bool) -> (r: Result<(), ApiError>)
    ensures
        absolute ==> r is Ok,
        !absolute ==> (r matches Err(e) && is_error(
            e,
            "unsafe_tool_path"@,
            "The "@ + program@ + " path must be absolute"@,
        )),
{
    if absolute {
        return Ok(());
    }
    let mut m = text::chars_of("The ");
    text::append_str(&mut m, program);
    text::append_str(&mut m, " path must be absolute");
    Err(ApiError::with_message("unsafe_tool_path", text::string_of(&m)))
}

/// A resolved tool must be a regular file with an execute permission bit
/// (`mode` is `None` where the platform has no permission bits).
pub fn check_tool_file(program: &str, is_file: bool, mode: Option<u32>) -> (r: Result<(), ApiError>)
    ensures
        !is_file ==> (r matches Err(e) && is_error(
            e,
            "tool_path_error"@,
            "The resolved "@ + program@ + " path is not a regular file"@,
        )),
        is_file && (mode matches Some(m) && m & 0o111 == 0) ==> (r matches Err(e) && is_error(
            e,
            "tool_not_executable"@,
            "Resolved "@ + program@ + " file is not executable"@,
        )),
        is_file && !(mode matches Some(m) && m & 0o111 == 0) ==> r is Ok,
{
    if !is_file {
        let mut m = text::chars_of("The resolved ");
        text::append_str(&mut m, program);
        text::append_str(&mut m, " path is not a regular file");
        return Err(ApiError::with_message("tool_path_error", text::string_of(&m)));
    }
    match mode {
        Some(bits) => {
            if bits & 0o111 == 0 {
                let mut m = text::chars_of("Resolved ");
                text::append_str(&mut m, program);
                text::append_str(&mut m, " file is not executable");
                return Err(ApiError::with_message("tool_not_executable", text::string_of(&m)));
            }
        },
        None => {},
    }
    Ok(())
}

/// A configured tools directory must be absolute.
pub fn check_absolute_directory(field: &str, absolute: bool) -> (r: Result<(), ApiError>)
    ensures
        absolute ==> r is Ok,
        !absolute ==> (r matches Err(e) && is_error(
            e,
            "invalid_tool_directory"@,
            field@ + " must be an absolute directory"@,
        )),
{
    if absolute {
        return Ok(());
    }
    let mut m = text::chars_of(field);
    text::append_str(&mut m, " must be an absolute directory");
    Err(ApiError::with_message("invalid_tool_directory", text::string_of(&m)))
}

/// A configured tools directory must resolve to a directory.
pub fn check_is_directory(field: &str, is_dir: bool) -> (r: Result<(), ApiError>)
    ensures
        is_dir ==> r is Ok,
        !is_dir ==> (r matches Err(e) && is_error(e, "invalid_tool_directory"@, field@ + " is not a directory"@)),
{
    if is_dir {
        return Ok(());
    }
    let mut m = text::chars_of(field);
    text::append_str(&mut m, " is not a directory");
    Err(ApiError::with_message("invalid_tool_directory", text::string_of(&m)))
}

} // verus!
