//! Application management over a root SSH session to a jailbroken iOS
//! device: the fixed tool catalogue, the tool probe, installer selection,
//! installed-app discovery and metadata, and the checks of a bundle export.
use crate::encoding;
use crate::error::{is_error, ApiError};
use crate::ios_ssh::IosSshConnection;
use crate::models::{
    installer_id_name, IosAppCapabilities, IosInstalledApp, IosInstalledAppScope,
    IosAppExportResult, IosPackageInstallResult, IosPackageInstaller, IosPackageInstallerId,
};
use crate::text;
use crate::validation;
use vstd::prelude::*;

verus! {

/// Application management needs a session that runs as root (uid 0).
pub fn require_root_session(connection: &IosSshConnection) -> (r: Result<(), ApiError>)
    ensures
        connection.remote_uid == Some(0u32) ==> r is Ok,
        connection.remote_uid != Some(0u32) ==> (r matches Err(e) && is_error(
            e,
            "ios_root_ssh_required"@,
            "iOS application management requires a verified root (uid 0) SSH session"@,
        )),
{
    match connection.remote_uid {
        Some(0) => Ok(()),
        _ => Err(
            ApiError::new(
                "ios_root_ssh_required",
                "iOS application management requires a verified root (uid 0) SSH session",
            ),
        ),
    }
}

// ---------------------------------------------------------------------------
// The fixed tool catalogue
// ---------------------------------------------------------------------------

/// The installers that may be used, each at one fixed path.
pub open spec fn installer_table() -> Seq<(IosPackageInstallerId, Seq<char>, Seq<char>)> {
    seq![
        (IosPackageInstallerId::Appinst, "appinst"@, "/usr/bin/appinst"@),
        (IosPackageInstallerId::Appinst, "appinst (rootless)"@, "/var/jb/usr/bin/appinst"@),
        (IosPackageInstallerId::Appinst, "appinst (local)"@, "/usr/local/bin/appinst"@),
        (IosPackageInstallerId::Ipainstaller, "IPA Installer Console"@, "/usr/bin/ipainstaller"@),
        (
            IosPackageInstallerId::Ipainstaller,
            "IPA Installer Console (rootless)"@,
            "/var/jb/usr/bin/ipainstaller"@,
        ),
        (
            IosPackageInstallerId::Ipainstaller,
            "IPA Installer Console (local)"@,
            "/usr/local/bin/ipainstaller"@,
        ),
    ]
}

pub const INSTALLER_COUNT: usize = 6;

fn installer_entry(i: usize) -> (r: (IosPackageInstallerId, &'static str, &'static str))
    requires
        i < INSTALLER_COUNT,
    ensures
        r.0 == installer_table()[i as int].0,
        r.1@ == installer_table()[i as int].1,
        r.2@ == installer_table()[i as int].2,
{
    if i == 0 {
        (IosPackageInstallerId::Appinst, "appinst", "/usr/bin/appinst")
    } else if i == 1 {
        (IosPackageInstallerId::Appinst, "appinst (rootless)", "/var/jb/usr/bin/appinst")
    } else if i == 2 {
        (IosPackageInstallerId::Appinst, "appinst (local)", "/usr/local/bin/appinst")
    } else if i == 3 {
        (IosPackageInstallerId::Ipainstaller, "IPA Installer Console", "/usr/bin/ipainstaller")
    } else if i == 4 {
        (
            IosPackageInstallerId::Ipainstaller,
            "IPA Installer Console (rootless)",
            "/var/jb/usr/bin/ipainstaller",
        )
    } else {
        (IosPackageInstallerId::Ipainstaller, "IPA Installer Console (local)", "/usr/local/bin/ipainstaller")
    }
}

pub open spec fn plutil_paths() -> Seq<Seq<char>> {
    seq!["/usr/bin/plutil"@, "/var/jb/usr/bin/plutil"@]
}

pub open spec fn base64_paths() -> Seq<Seq<char>> {
    seq!["/usr/bin/base64"@, "/bin/base64"@, "/var/jb/usr/bin/base64"@]
}

pub open spec fn tar_paths() -> Seq<Seq<char>> {
    seq!["/usr/bin/tar"@, "/bin/tar"@, "/var/jb/usr/bin/tar"@]
}

fn plutil_path_at(i: usize) -> (r: &'static str)
    requires
        i < 2,
    ensures
        r@ == plutil_paths()[i as int],
{
    if i == 0 {
        "/usr/bin/plutil"
    } else {
        "/var/jb/usr/bin/plutil"
    }
}

fn base64_path_at(i: usize) -> (r: &'static str)
    requires
        i < 3,
    ensures
        r@ == base64_paths()[i as int],
{
    if i == 0 {
        "/usr/bin/base64"
    } else if i == 1 {
        "/bin/base64"
    } else {
        "/var/jb/usr/bin/base64"
    }
}

fn tar_path_at(i: usize) -> (r: &'static str)
    requires
        i < 3,
    ensures
        r@ == tar_paths()[i as int],
{
    if i == 0 {
        "/usr/bin/tar"
    } else if i == 1 {
        "/bin/tar"
    } else {
        "/var/jb/usr/bin/tar"
    }
}

/// The index of the catalogue entry with this installer id and path.
pub open spec fn find_installer(id: Seq<char>, path: Seq<char>) -> Option<int> {
    if exists|k: int|
        0 <= k < installer_table().len() && installer_id_name(installer_table()[k].0) == id
            && installer_table()[k].2 == path {
        Some(
            choose|k: int|
                0 <= k < installer_table().len() && installer_id_name(installer_table()[k].0) == id
                    && installer_table()[k].2 == path,
        )
    } else {
        None
    }
}

proof fn lemma_installer_paths_distinct()
    ensures
        forall|a: int, b: int|
            0 <= a < 6 && 0 <= b < 6 && installer_table()[a].2 == installer_table()[b].2 ==> a == b,
{
    reveal_strlit("/usr/bin/appinst");
    reveal_strlit("/var/jb/usr/bin/appinst");
    reveal_strlit("/usr/local/bin/appinst");
    reveal_strlit("/usr/bin/ipainstaller");
    reveal_strlit("/var/jb/usr/bin/ipainstaller");
    reveal_strlit("/usr/local/bin/ipainstaller");
    assert forall|a: int, b: int|
        0 <= a < 6 && 0 <= b < 6 && installer_table()[a].2 == installer_table()[b].2 implies a
        == b by {
        let pa = installer_table()[a].2;
        let pb = installer_table()[b].2;
        if a != b {
            assert(pa.len() != pb.len() || pa[5] != pb[5] || pa[6] != pb[6] || pa[10] != pb[10]);
        }
    }
}

/// Finds the catalogue entry with this installer id and path.
pub fn installer_index(id: &[char], path: &[char]) -> (r: Option<usize>)
    ensures
        match find_installer(id@, path@) {
            Some(k) => r == Some(k as usize),
            None => r is None,
        },
{
    let mut i: usize = 0;
    while i < INSTALLER_COUNT
        invariant
            i <= INSTALLER_COUNT,
            forall|k: int|
                0 <= k < i ==> !(installer_id_name(installer_table()[k].0) == id@
                    && #[trigger] installer_table()[k].2 == path@),
        decreases INSTALLER_COUNT - i,
    {
        let (eid, _, epath) = installer_entry(i);
        if text::eq_str(id, eid.as_str()) && text::eq_str(path, epath) {
            proof {
                lemma_installer_paths_distinct();
                let k = choose|k: int|
                    0 <= k < installer_table().len() && installer_id_name(installer_table()[k].0)
                        == id@ && installer_table()[k].2 == path@;
                assert(installer_table()[i as int].2 == path@);
            }
            return Some(i);
        }
        i = i + 1;
    }
    proof {
        if exists|k: int|
            0 <= k < installer_table().len() && installer_id_name(installer_table()[k].0) == id@
                && installer_table()[k].2 == path@ {
            let k = choose|k: int|
                0 <= k < installer_table().len() && installer_id_name(installer_table()[k].0)
                    == id@ && installer_table()[k].2 == path@;
            assert(installer_table()[k].2 == path@);
        }
    }
    None
}

/// The installer of catalogue entry `i`.
pub fn installer_at(i: usize) -> (r: IosPackageInstaller)
    requires
        i < INSTALLER_COUNT,
    ensures
        r.id == installer_table()[i as int].0,
        r.name@ == installer_table()[i as int].1,
        r.path@ == installer_table()[i as int].2,
{
    let (id, name, path) = installer_entry(i);
    IosPackageInstaller { id, name: text::copy_str(name), path: text::copy_str(path) }
}

/// How the device's `plutil` reads one key.
#[derive(Debug, Clone, Copy, PartialEq, Eq, Structural)]
pub enum PlutilMode {
    Extract,
    Key,
}

pub open spec fn plutil_mode_name(m: PlutilMode) -> Seq<char> {
    match m {
        PlutilMode::Extract => "extract"@,
        PlutilMode::Key => "key"@,
    }
}

impl PlutilMode {
    pub fn as_str(self) -> (r: &'static str)
        ensures
            r@ == plutil_mode_name(self),
    {
        match self {
            PlutilMode::Extract => "extract",
            PlutilMode::Key => "key",
        }
    }
}

pub open spec fn plutil_mode_of(s: Seq<char>) -> Option<PlutilMode> {
    if s == "extract"@ {
        Some(PlutilMode::Extract)
    } else if s == "key"@ {
        Some(PlutilMode::Key)
    } else {
        None
    }
}

pub fn parse_plutil_mode(value: &str) -> (r: Option<PlutilMode>)
    ensures
        r == plutil_mode_of(value@),
{
    if text::eq_str_str(value, "extract") {
        Some(PlutilMode::Extract)
    } else if text::eq_str_str(value, "key") {
        Some(PlutilMode::Key)
    } else {
        None
    }
}


// ---------------------------------------------------------------------------
// The tool probe
// ---------------------------------------------------------------------------

pub open spec fn installer_check(id: IosPackageInstallerId, path: Seq<char>) -> Seq<char> {
    let q = validation::quote(path);
    "if [ -x "@ + q + " ]; then printf 'MOBIUS_IOS_TOOL:installer:"@ + installer_id_name(id) + seq![':']
        + q + "\\n'; fi"@
}

pub open spec fn plutil_check(path: Seq<char>) -> Seq<char> {
    let q = validation::quote(path);
    "if [ -x "@ + q + " ] && "@ + q
        + " -extract ProductVersion raw -o - /System/Library/CoreServices/SystemVersion.plist >/dev/null 2>&1; then printf 'MOBIUS_IOS_TOOL:plutil:extract:"@
        + path + "\\n'; elif [ -x "@ + q + " ] && "@ + q
        + " -key ProductVersion /System/Library/CoreServices/SystemVersion.plist >/dev/null 2>&1; then printf 'MOBIUS_IOS_TOOL:plutil:key:"@
        + path + "\\n'; fi"@
}

pub open spec fn simple_check(kind: Seq<char>, path: Seq<char>) -> Seq<char> {
    let q = validation::quote(path);
    "if [ -x "@ + q + " ]; then printf 'MOBIUS_IOS_TOOL:"@ + kind + seq![':'] + q + "\\n'; fi"@
}

/// The checks of the probe: each catalogue installer, each `plutil` (with
/// the dialect that reads a key), each `base64` and each `tar`.
pub open spec fn probe_checks() -> Seq<Seq<char>> {
    Seq::new(6, |i: int| installer_check(installer_table()[i].0, installer_table()[i].2)) + Seq::new(
        2,
        |i: int| plutil_check(plutil_paths()[i]),
    ) + Seq::new(3, |i: int| simple_check("base64"@, base64_paths()[i])) + Seq::new(
        3,
        |i: int| simple_check("tar"@, tar_paths()[i]),
    )
}

fn installer_check_exec(id: IosPackageInstallerId, path: &str) -> (r: String)
    ensures
        r@ == installer_check(id, path@),
{
    let q = validation::quote_remote(path);
    let mut out = text::chars_of("if [ -x ");
    text::append_str(&mut out, q.as_str());
    text::append_str(&mut out, " ]; then printf 'MOBIUS_IOS_TOOL:installer:");
    text::append_str(&mut out, id.as_str());
    out.push(':');
    text::append_str(&mut out, q.as_str());
    text::append_str(&mut out, "\\n'; fi");
    assert(out@ =~= installer_check(id, path@));
    text::string_of(&out)
}

fn plutil_check_exec(path: &str) -> (r: String)
    ensures
        r@ == plutil_check(path@),
{
    let q = validation::quote_remote(path);
    let qs = q.as_str();
    let mut out = text::chars_of("if [ -x ");
    text::append_str(&mut out, qs);
    text::append_str(&mut out, " ] && ");
    text::append_str(&mut out, qs);
    text::append_str(
        &mut out,
        " -extract ProductVersion raw -o - /System/Library/CoreServices/SystemVersion.plist >/dev/null 2>&1; then printf 'MOBIUS_IOS_TOOL:plutil:extract:",
    );
    text::append_str(&mut out, path);
    text::append_str(&mut out, "\\n'; elif [ -x ");
    text::append_str(&mut out, qs);
    text::append_str(&mut out, " ] && ");
    text::append_str(&mut out, qs);
    text::append_str(
        &mut out,
        " -key ProductVersion /System/Library/CoreServices/SystemVersion.plist >/dev/null 2>&1; then printf 'MOBIUS_IOS_TOOL:plutil:key:",
    );
    text::append_str(&mut out, path);
    text::append_str(&mut out, "\\n'; fi");
    assert(out@ =~= plutil_check(path@));
    text::string_of(&out)
}

fn simple_check_exec(kind: &str, path: &str) -> (r: String)
    ensures
        r@ == simple_check(kind@, path@),
{
    let q = validation::quote_remote(path);
    let mut out = text::chars_of("if [ -x ");
    text::append_str(&mut out, q.as_str());
    text::append_str(&mut out, " ]; then printf 'MOBIUS_IOS_TOOL:");
    text::append_str(&mut out, kind);
    out.push(':');
    text::append_str(&mut out, q.as_str());
    text::append_str(&mut out, "\\n'; fi");
    assert(out@ =~= simple_check(kind@, path@));
    text::string_of(&out)
}

/// The device command of the tool probe: the checks joined by `; `.
pub fn capability_probe_command() -> (r: String)
    ensures
        r@ == text::join(probe_checks(), "; "@),
{
    let mut checks: Vec<String> = Vec::new();
    let mut i: usize = 0;
    while i < INSTALLER_COUNT
        invariant
            i <= INSTALLER_COUNT,
            text::string_views(checks@) == probe_checks().take(i as int),
        decreases INSTALLER_COUNT - i,
    {
        let (id, _, path) = installer_entry(i);
        text::push_string(&mut checks, installer_check_exec(id, path));
        i = i + 1;
        assert(text::string_views(checks@) =~= probe_checks().take(i as int));
    }
    let mut j: usize = 0;
    while j < 2
        invariant
            j <= 2,
            text::string_views(checks@) == probe_checks().take(6 + j),
        decreases 2 - j,
    {
        text::push_string(&mut checks, plutil_check_exec(plutil_path_at(j)));
        j = j + 1;
        assert(text::string_views(checks@) =~= probe_checks().take(6 + j));
    }
    let mut k: usize = 0;
    while k < 3
        invariant
            k <= 3,
            text::string_views(checks@) == probe_checks().take(8 + k),
        decreases 3 - k,
    {
        text::push_string(&mut checks, simple_check_exec("base64", base64_path_at(k)));
        k = k + 1;
        assert(text::string_views(checks@) =~= probe_checks().take(8 + k));
    }
    let mut t: usize = 0;
    while t < 3
        invariant
            t <= 3,
            text::string_views(checks@) == probe_checks().take(11 + t),
        decreases 3 - t,
    {
        text::push_string(&mut checks, simple_check_exec("tar", tar_path_at(t)));
        t = t + 1;
        assert(text::string_views(checks@) =~= probe_checks().take(11 + t));
    }
    assert(probe_checks().take(14) =~= probe_checks());
    text::join_strings(&checks, "; ")
}


/// What the probe found so far: the catalogue indices of the installers
/// reported (each once, in order), the first usable `plutil` with its
/// dialect, the first `base64` and the first `tar`.
pub type ToolScan = (Seq<int>, Option<(Seq<char>, PlutilMode)>, Option<Seq<char>>, Option<Seq<char>>);

/// One (trimmed) probe line: only paths of the fixed catalogue are taken.
pub open spec fn scan_line(st: ToolScan, line: Seq<char>) -> ToolScan {
    match text::strip_prefix(line, "MOBIUS_IOS_TOOL:installer:"@) {
        Some(v) => match text::split_once(v, seq![':']) {
            None => st,
            Some((id, path)) => match find_installer(id, path) {
                Some(k) => if st.0.contains(k) {
                    st
                } else {
                    (st.0.push(k), st.1, st.2, st.3)
                },
                None => st,
            },
        },
        None => match text::strip_prefix(line, "MOBIUS_IOS_TOOL:plutil:"@) {
            Some(v) => match text::split_once(v, seq![':']) {
                None => st,
                Some((mode, path)) => if st.1 is None && plutil_paths().contains(path)
                    && plutil_mode_of(mode) is Some {
                    (st.0, Some((path, plutil_mode_of(mode)->0)), st.2, st.3)
                } else {
                    st
                },
            },
            None => match text::strip_prefix(line, "MOBIUS_IOS_TOOL:base64:"@) {
                Some(path) => if st.2 is None && base64_paths().contains(path) {
                    (st.0, st.1, Some(path), st.3)
                } else {
                    st
                },
                None => match text::strip_prefix(line, "MOBIUS_IOS_TOOL:tar:"@) {
                    Some(path) => if st.3 is None && tar_paths().contains(path) {
                        (st.0, st.1, st.2, Some(path))
                    } else {
                        st
                    },
                    None => st,
                },
            },
        },
    }
}

pub open spec fn scan_lines(ls: Seq<Seq<char>>) -> ToolScan
    decreases ls.len(),
{
    if ls.len() == 0 {
        (Seq::empty(), None, None, None)
    } else {
        scan_line(scan_lines(ls.drop_last()), ls.last())
    }
}

/// The indices of `s` whose catalogue installer has this id, in order.
pub open spec fn with_id(s: Seq<int>, id: IosPackageInstallerId) -> Seq<int>
    decreases s.len(),
{
    if s.len() == 0 {
        Seq::empty()
    } else if installer_table()[s.last()].0 == id {
        with_id(s.drop_last(), id).push(s.last())
    } else {
        with_id(s.drop_last(), id)
    }
}

pub open spec fn installer_views(v: Seq<IosPackageInstaller>) -> Seq<(IosPackageInstallerId, Seq<char>, Seq<char>)> {
    v.map_values(|i: IosPackageInstaller| (i.id, i.name@, i.path@))
}

/// The installers found, `appinst` ones first, each group in probe order.
pub open spec fn found_installers(st: ToolScan) -> Seq<(IosPackageInstallerId, Seq<char>, Seq<char>)> {
    (with_id(st.0, IosPackageInstallerId::Appinst) + with_id(st.0, IosPackageInstallerId::Ipainstaller)).map_values(
        |k: int| installer_table()[k],
    )
}

pub open spec fn capability_warnings(st: ToolScan) -> Seq<Seq<char>> {
    (if st.0.len() == 0 {
        seq![
            "No supported on-device IPA installer was found; Mobius will not install or download one"@,
        ]
    } else {
        Seq::empty()
    }) + (if !(st.1 is Some && st.2 is Some) {
        seq!["Installed-app metadata requires the device's existing plutil and base64 commands"@]
    } else {
        Seq::empty()
    }) + (if st.3 is None {
        seq!["App-bundle export requires an existing tar command on the device"@]
    } else {
        Seq::empty()
    })
}

fn contains_path(paths: &Vec<&'static str>, path: &[char]) -> (r: bool)
    ensures
        r == paths@.map_values(|p: &'static str| p@).contains(path@),
{
    let ghost ps = paths@.map_values(|p: &'static str| p@);
    let mut i: usize = 0;
    while i < paths.len()
        invariant
            i <= paths@.len(),
            ps == paths@.map_values(|p: &'static str| p@),
            forall|j: int| 0 <= j < i ==> (#[trigger] paths@[j])@ != path@,
        decreases paths@.len() - i,
    {
        if text::eq_str(path, paths[i]) {
            assert(ps[i as int] == path@);
            return true;
        }
        i = i + 1;
    }
    assert(!ps.contains(path@)) by {
        if ps.contains(path@) {
            let k = choose|k: int| 0 <= k < ps.len() && ps[k] == path@;
            assert(paths@[k]@ == path@);
        }
    }
    false
}

fn plutil_list() -> (r: Vec<&'static str>)
    ensures
        r@.map_values(|p: &'static str| p@) == plutil_paths(),
{
    let r = vec![plutil_path_at(0), plutil_path_at(1)];
    assert(r@.map_values(|p: &'static str| p@) =~= plutil_paths());
    r
}

fn base64_list() -> (r: Vec<&'static str>)
    ensures
        r@.map_values(|p: &'static str| p@) == base64_paths(),
{
    let r = vec![base64_path_at(0), base64_path_at(1), base64_path_at(2)];
    assert(r@.map_values(|p: &'static str| p@) =~= base64_paths());
    r
}

fn tar_list() -> (r: Vec<&'static str>)
    ensures
        r@.map_values(|p: &'static str| p@) == tar_paths(),
{
    let r = vec![tar_path_at(0), tar_path_at(1), tar_path_at(2)];
    assert(r@.map_values(|p: &'static str| p@) =~= tar_paths());
    r
}

pub open spec fn index_view(v: Seq<usize>) -> Seq<int> {
    v.map_values(|k: usize| k as int)
}

fn contains_index(v: &Vec<usize>, k: usize) -> (r: bool)
    ensures
        r == index_view(v@).contains(k as int),
{
    let mut i: usize = 0;
    while i < v.len()
        invariant
            i <= v@.len(),
            forall|j: int| 0 <= j < i ==> (#[trigger] v@[j]) != k,
        decreases v@.len() - i,
    {
        if v[i] == k {
            assert(index_view(v@)[i as int] == k as int);
            return true;
        }
        i = i + 1;
    }
    assert(!index_view(v@).contains(k as int)) by {
        if index_view(v@).contains(k as int) {
            let j = choose|j: int| 0 <= j < index_view(v@).len() && index_view(v@)[j] == k as int;
            assert(v@[j] == k);
        }
    }
    false
}

fn opt_chars_view(o: &Option<Vec<char>>) -> (r: Option<String>)
    ensures
        text::opt_view(r) == match o {
            Some(v) => Some(v@),
            None => None::<Seq<char>>,
        },
{
    match o {
        Some(v) => Some(text::string_of(v)),
        None => None,
    }
}

/// The capabilities reported by the tool probe.
pub fn parse_capabilities(session_id: &str, stdout: &str) -> (r: IosAppCapabilities)
    ensures
        ({
            let st = scan_lines(text::trimmed_lines(stdout@));
            &&& r.session_id@ == session_id@
            &&& r.root_session
            &&& installer_views(r.installers@) == found_installers(st)
            &&& match r.preferred_installer {
                Some(p) => found_installers(st).len() > 0 && (p.id, p.name@, p.path@) == found_installers(
                    st,
                )[0],
                None => found_installers(st).len() == 0,
            }
            &&& r.listing_available == (st.1 is Some && st.2 is Some)
            &&& r.export_available == st.3 is Some
            &&& text::opt_view(r.plutil_path) == match st.1 {
                Some((path, _)) => Some(path),
                None => None::<Seq<char>>,
            }
            &&& text::opt_view(r.plutil_mode) == match st.1 {
                Some((_, mode)) => Some(plutil_mode_name(mode)),
                None => None::<Seq<char>>,
            }
            &&& text::opt_view(r.base64_path) == st.2
            &&& text::opt_view(r.tar_path) == st.3
            &&& text::string_views(r.warnings@) == capability_warnings(st)
        }),
{
    let ls = text::trimmed_lines_of(stdout);
    let ghost vs = text::views(ls@);
    let plutils = plutil_list();
    let base64s = base64_list();
    let tars = tar_list();
    let colon: Vec<char> = vec![':'];
    assert(colon@ =~= seq![':']);
    let mut found: Vec<usize> = Vec::new();
    let mut plutil: Option<(Vec<char>, PlutilMode)> = None;
    let mut base64: Option<Vec<char>> = None;
    let mut tar: Option<Vec<char>> = None;
    let mut i: usize = 0;
    assert(vs.take(0) =~= Seq::<Seq<char>>::empty());
    while i < ls.len()
        invariant
            i <= ls@.len(),
            vs == text::views(ls@),
            vs == text::trimmed_lines(stdout@),
            colon@ == seq![':'],
            plutils@.map_values(|p: &'static str| p@) == plutil_paths(),
            base64s@.map_values(|p: &'static str| p@) == base64_paths(),
            tars@.map_values(|p: &'static str| p@) == tar_paths(),
            forall|j: int| 0 <= j < found@.len() ==> (#[trigger] found@[j]) < INSTALLER_COUNT,
            ({
                let st = scan_lines(vs.take(i as int));
                &&& index_view(found@) == st.0
                &&& match plutil {
                    Some((p, m)) => st.1 == Some((p@, m)),
                    None => st.1 is None,
                }
                &&& match base64 {
                    Some(p) => st.2 == Some(p@),
                    None => st.2 is None,
                }
                &&& match tar {
                    Some(p) => st.3 == Some(p@),
                    None => st.3 is None,
                }
            }),
        decreases ls@.len() - i,
    {
        assert(vs.take(i + 1).drop_last() =~= vs.take(i as int));
        assert(vs.take(i + 1).last() == ls@[i as int]@);
        let line = &ls[i];
        if let Some(v) = text::strip_prefix_str(line, "MOBIUS_IOS_TOOL:installer:") {
            if let Some((id, path)) = text::split_once_exec(&v, &colon) {
                if let Some(k) = installer_index(&id, &path) {
                    if !contains_index(&found, k) {
                        let ghost before = found@;
                        found.push(k);
                        assert(index_view(found@) =~= index_view(before).push(k as int));
                    }
                }
            }
        } else if let Some(v) = text::strip_prefix_str(line, "MOBIUS_IOS_TOOL:plutil:") {
            if let Some((mode, path)) = text::split_once_exec(&v, &colon) {
                if plutil.is_none() && contains_path(&plutils, &path) {
                    let mode_text = text::string_of(&mode);
                    if let Some(m) = parse_plutil_mode(mode_text.as_str()) {
                        plutil = Some((path, m));
                    }
                }
            }
        } else if let Some(path) = text::strip_prefix_str(line, "MOBIUS_IOS_TOOL:base64:") {
            if base64.is_none() && contains_path(&base64s, &path) {
                base64 = Some(path);
            }
        } else if let Some(path) = text::strip_prefix_str(line, "MOBIUS_IOS_TOOL:tar:") {
            if tar.is_none() && contains_path(&tars, &path) {
                tar = Some(path);
            }
        }
        i = i + 1;
    }
    assert(vs.take(ls@.len() as int) =~= vs);
    let ghost st = scan_lines(vs);
    // Installers: `appinst` ones first, then the others, each in probe order.
    let mut installers: Vec<IosPackageInstaller> = Vec::new();
    let mut pass: usize = 0;
    let ghost first = with_id(st.0, IosPackageInstallerId::Appinst);
    assert(st.0.take(0) =~= Seq::<int>::empty());
    while pass < 2
        invariant
            pass <= 2,
            index_view(found@) == st.0,
            forall|j: int| 0 <= j < found@.len() ==> (#[trigger] found@[j]) < INSTALLER_COUNT,
            first == with_id(st.0, IosPackageInstallerId::Appinst),
            pass == 0 ==> installer_views(installers@) == Seq::<
                (IosPackageInstallerId, Seq<char>, Seq<char>),
            >::empty(),
            pass == 1 ==> installer_views(installers@) == first.map_values(
                |k: int| installer_table()[k],
            ),
            pass == 2 ==> installer_views(installers@) == found_installers(st),
        decreases 2 - pass,
    {
        let want = if pass == 0 {
            IosPackageInstallerId::Appinst
        } else {
            IosPackageInstallerId::Ipainstaller
        };
        let ghost base = installer_views(installers@);
        let mut j: usize = 0;
        while j < found.len()
            invariant
                j <= found@.len(),
                index_view(found@) == st.0,
                forall|q: int| 0 <= q < found@.len() ==> (#[trigger] found@[q]) < INSTALLER_COUNT,
                installer_views(installers@) == base + with_id(st.0.take(j as int), want).map_values(
                    |k: int| installer_table()[k],
                ),
            decreases found@.len() - j,
        {
            let k = found[j];
            assert(st.0.take(j + 1).drop_last() =~= st.0.take(j as int));
            assert(st.0.take(j + 1).last() == k as int);
            let entry = installer_at(k);
            if entry.id == want {
                let ghost before = installer_views(installers@);
                installers.push(entry);
                assert(installer_views(installers@) =~= before.push((entry.id, entry.name@, entry.path@)));
                assert(installer_views(installers@) =~= base + with_id(
                    st.0.take(j + 1),
                    want,
                ).map_values(|k: int| installer_table()[k]));
            } else {
                assert(with_id(st.0.take(j + 1), want) =~= with_id(st.0.take(j as int), want));
            }
            j = j + 1;
        }
        assert(st.0.take(found@.len() as int) =~= st.0);
        pass = pass + 1;
        proof {
            if pass == 2 {
                assert(installer_views(installers@) =~= found_installers(st));
            } else {
                assert(installer_views(installers@) =~= first.map_values(|k: int| installer_table()[k]));
            }
        }
    }
    let preferred = if installers.len() > 0 {
        let p = &installers[0];
        assert(installer_views(installers@)[0] == (p.id, p.name@, p.path@));
        Some(IosPackageInstaller { id: p.id, name: text::copy_string(&p.name), path: text::copy_string(&p.path) })
    } else {
        None
    };
    let listing_available = plutil.is_some() && base64.is_some();
    let mut warnings: Vec<String> = Vec::new();
    if found.len() == 0 {
        text::push_str(
            &mut warnings,
            "No supported on-device IPA installer was found; Mobius will not install or download one",
        );
    }
    if !listing_available {
        text::push_str(
            &mut warnings,
            "Installed-app metadata requires the device's existing plutil and base64 commands",
        );
    }
    if tar.is_none() {
        text::push_str(&mut warnings, "App-bundle export requires an existing tar command on the device");
    }
    assert(text::string_views(warnings@) =~= capability_warnings(st));
    let (plutil_path, plutil_mode) = match &plutil {
        Some((p, m)) => (Some(text::string_of(p)), Some(text::copy_str(m.as_str()))),
        None => (None, None),
    };
    IosAppCapabilities {
        session_id: text::copy_str(session_id),
        root_session: true,
        installers,
        preferred_installer: preferred,
        listing_available,
        export_available: tar.is_some(),
        plutil_path,
        plutil_mode,
        base64_path: opt_chars_view(&base64),
        tar_path: opt_chars_view(&tar),
        warnings,
    }
}


// ---------------------------------------------------------------------------
// Identifiers and application paths
// ---------------------------------------------------------------------------

pub open spec fn bundle_char(c: char) -> bool {
    text::is_alnum(c) || c == '.' || c == '-' || c == '_'
}

/// A bundle identifier: at most 255 bytes of ASCII letters, digits, `.`,
/// `-` and `_`, with at least one dot, no empty dot-separated segment, and
/// no `.` or `-` at either end.
pub open spec fn bundle_id_ok(s: Seq<char>) -> bool {
    &&& s.len() > 0
    &&& text::utf8_len(s) <= 255
    &&& s[0] != '.' && s[0] != '-'
    &&& s.last() != '.' && s.last() != '-'
    &&& text::contains(s, seq!['.'])
    &&& forall|i: int| 0 <= i < s.len() ==> bundle_char(#[trigger] s[i])
    &&& forall|i: int| 0 <= i < text::split(s, '.').len() ==> (#[trigger] text::split(s, '.')[i]).len() > 0
}

pub fn validate_ios_bundle_id(value: &str) -> (r: Result<&str, ApiError>)
    ensures
        bundle_id_ok(value@) ==> r == Ok::<&str, ApiError>(value),
        !bundle_id_ok(value@) ==> (r matches Err(e) && is_error(
            e,
            "invalid_ios_bundle_id"@,
            "The iOS bundle identifier is invalid"@,
        )),
{
    let cs = text::chars_of(value);
    let n = text::utf8_len_capped(&cs, 256);
    let dot: Vec<char> = vec!['.'];
    assert(dot@ =~= seq!['.']);
    let mut ok = cs.len() > 0 && n <= 255;
    if ok {
        let first = cs[0];
        let last = cs[cs.len() - 1];
        ok = first != '.' && first != '-' && last != '.' && last != '-' && text::contains_exec(&cs, &dot);
    }
    let mut i: usize = 0;
    while i < cs.len()
        invariant
            i <= cs@.len(),
            cs@ == value@,
            forall|j: int| 0 <= j < i ==> bundle_char(#[trigger] cs@[j]),
        decreases cs@.len() - i,
    {
        let c = cs[i];
        if !(text::is_alnum_exec(c) || c == '.' || c == '-' || c == '_') {
            assert(!bundle_char(cs@[i as int]));
            return Err(ApiError::new("invalid_ios_bundle_id", "The iOS bundle identifier is invalid"));
        }
        i = i + 1;
    }
    let parts = text::split_exec(&cs, '.');
    let mut k: usize = 0;
    while k < parts.len()
        invariant
            k <= parts@.len(),
            cs@ == value@,
            text::views(parts@) == text::split(cs@, '.'),
            forall|j: int| 0 <= j < k ==> (#[trigger] text::split(cs@, '.')[j]).len() > 0,
        decreases parts@.len() - k,
    {
        assert(text::split(cs@, '.')[k as int] == parts@[k as int]@);
        if parts[k].len() == 0 {
            return Err(ApiError::new("invalid_ios_bundle_id", "The iOS bundle identifier is invalid"));
        }
        k = k + 1;
    }
    if !ok {
        return Err(ApiError::new("invalid_ios_bundle_id", "The iOS bundle identifier is invalid"));
    }
    Ok(value)
}

/// `str::trim_end_matches` with a string pattern: every trailing
/// occurrence of `p` removed.
pub open spec fn trim_end_pattern(s: Seq<char>, p: Seq<char>) -> Seq<char>
    decreases s.len(),
{
    if p.len() > 0 && text::ends_with(s, p) {
        trim_end_pattern(s.take(s.len() - p.len()), p)
    } else {
        s
    }
}

fn trim_end_pattern_exec(s: &[char], p: &str) -> (r: Vec<char>)
    ensures
        r@ == trim_end_pattern(s@, p@),
{
    let pc = text::chars_of(p);
    let mut end: usize = s.len();
    assert(s@.take(end as int) =~= s@);
    while pc.len() > 0 && end >= pc.len() && text::ends_with_exec(&text::slice_chars(s, 0, end), &pc)
        invariant
            end <= s@.len(),
            pc@ == p@,
            trim_end_pattern(s@, p@) == trim_end_pattern(s@.take(end as int), p@),
        decreases end,
    {
        let ghost t = s@.take(end as int);
        assert(t.take(t.len() - pc@.len()) =~= s@.take(end - pc@.len()));
        end = end - pc.len();
    }
    let r = text::slice_chars(s, 0, end);
    proof {
        let t = s@.take(end as int);
        assert(r@ =~= t);
        if p@.len() > 0 && text::ends_with(t, p@) {
            assert(t.len() >= p@.len());
        }
    }
    r
}

pub open spec fn system_roots() -> Seq<Seq<char>> {
    seq!["/Applications"@, "/var/jb/Applications"@]
}

pub open spec fn user_roots() -> Seq<Seq<char>> {
    seq![
        "/var/containers/Bundle/Application"@,
        "/private/var/containers/Bundle/Application"@,
        "/var/mobile/Containers/Bundle/Application"@,
        "/private/var/mobile/Containers/Bundle/Application"@,
    ]
}

fn system_root_at(i: usize) -> (r: &'static str)
    requires
        i < 2,
    ensures
        r@ == system_roots()[i as int],
{
    if i == 0 {
        "/Applications"
    } else {
        "/var/jb/Applications"
    }
}

fn user_root_at(i: usize) -> (r: &'static str)
    requires
        i < 4,
    ensures
        r@ == user_roots()[i as int],
{
    if i == 0 {
        "/var/containers/Bundle/Application"
    } else if i == 1 {
        "/private/var/containers/Bundle/Application"
    } else if i == 2 {
        "/var/mobile/Containers/Bundle/Application"
    } else {
        "/private/var/mobile/Containers/Bundle/Application"
    }
}

/// A bundle directly inside a system application root.
pub open spec fn system_bundle(value: Seq<char>, root: Seq<char>) -> bool {
    match text::strip_prefix(value, root.push('/')) {
        Some(rest) => text::ends_with(rest, ".app"@) && !text::contains(
            trim_end_pattern(rest, ".app"@),
            seq!['/'],
        ),
        None => false,
    }
}

/// A bundle inside one container directory of a user application root.
pub open spec fn user_bundle(value: Seq<char>, root: Seq<char>) -> bool {
    match text::strip_prefix(value, root.push('/')) {
        Some(rest) => {
            let parts = text::split(rest, '/');
            parts.len() == 2 && parts[0].len() > 0 && text::ends_with(parts[1], ".app"@)
                && trim_end_pattern(parts[1], ".app"@).len() > 0
        },
        None => false,
    }
}

pub open spec fn app_path_check(s: Seq<char>) -> Result<(), (Seq<char>, Seq<char>)> {
    match validation::remote_path_check(s) {
        Err(e) => Err(e),
        Ok(()) => if !text::ends_with(s, ".app"@) {
            Err(("invalid_ios_app_path"@, "The selected path must be a top-level .app bundle"@))
        } else if (exists|i: int| 0 <= i < 2 && system_bundle(s, #[trigger] system_roots()[i])) || (exists|
            i: int,
        | 0 <= i < 4 && user_bundle(s, #[trigger] user_roots()[i])) {
            Ok(())
        } else {
            Err(
                (
                    "ios_app_path_outside_fixed_roots"@,
                    "The selected .app bundle is not in a supported fixed iOS application directory"@,
                ),
            )
        },
    }
}

fn system_bundle_exec(value: &[char], root: &str) -> (r: bool)
    ensures
        r == system_bundle(value@, root@),
{
    let mut prefix = text::chars_of(root);
    prefix.push('/');
    let slash: Vec<char> = vec!['/'];
    assert(slash@ =~= seq!['/']);
    match text::strip_prefix_str(value, text::string_of(&prefix).as_str()) {
        Some(rest) => text::ends_with_str(&rest, ".app") && !text::contains_exec(
            &trim_end_pattern_exec(&rest, ".app"),
            &slash,
        ),
        None => false,
    }
}

fn user_bundle_exec(value: &[char], root: &str) -> (r: bool)
    ensures
        r == user_bundle(value@, root@),
{
    let mut prefix = text::chars_of(root);
    prefix.push('/');
    match text::strip_prefix_str(value, text::string_of(&prefix).as_str()) {
        Some(rest) => {
            let parts = text::split_exec(&rest, '/');
            if parts.len() != 2 {
                return false;
            }
            assert(text::split(rest@, '/')[0] == parts@[0]@);
            assert(text::split(rest@, '/')[1] == parts@[1]@);
            parts[0].len() > 0 && text::ends_with_str(&parts[1], ".app") && trim_end_pattern_exec(
                &parts[1],
                ".app",
            ).len() > 0
        },
        None => false,
    }
}

/// A top-level `.app` bundle in one of the fixed application directories.
pub fn validate_ios_app_path(value: &str) -> (r: Result<&str, ApiError>)
    ensures
        match app_path_check(value@) {
            Ok(()) => r == Ok::<&str, ApiError>(value),
            Err((code, message)) => r matches Err(e) && is_error(e, code, message),
        },
{
    match validation::remote_path(value) {
        Ok(_) => {},
        Err(e) => {
            return Err(e);
        },
    }
    let cs = text::chars_of(value);
    if !text::ends_with_str(&cs, ".app") {
        return Err(
            ApiError::new("invalid_ios_app_path", "The selected path must be a top-level .app bundle"),
        );
    }
    let mut i: usize = 0;
    while i < 2
        invariant
            i <= 2,
            cs@ == value@,
            validation::remote_path_check(value@) is Ok,
            text::ends_with(value@, ".app"@),
            forall|j: int| 0 <= j < i ==> !system_bundle(value@, #[trigger] system_roots()[j]),
        decreases 2 - i,
    {
        if system_bundle_exec(&cs, system_root_at(i)) {
            assert(system_bundle(value@, system_roots()[i as int]));
            return Ok(value);
        }
        i = i + 1;
    }
    let mut k: usize = 0;
    while k < 4
        invariant
            k <= 4,
            cs@ == value@,
            validation::remote_path_check(value@) is Ok,
            text::ends_with(value@, ".app"@),
            forall|j: int| 0 <= j < 2 ==> !system_bundle(value@, #[trigger] system_roots()[j]),
            forall|j: int| 0 <= j < k ==> !user_bundle(value@, #[trigger] user_roots()[j]),
        decreases 4 - k,
    {
        if user_bundle_exec(&cs, user_root_at(k)) {
            assert(user_bundle(value@, user_roots()[k as int]));
            return Ok(value);
        }
        k = k + 1;
    }
    Err(
        ApiError::new(
            "ios_app_path_outside_fixed_roots",
            "The selected .app bundle is not in a supported fixed iOS application directory",
        ),
    )
}

/// The metadata path of a bundle: `<bundle>.app/Info.plist`.
pub open spec fn plist_path_check(s: Seq<char>) -> Result<(), (Seq<char>, Seq<char>)> {
    match validation::remote_path_check(s) {
        Err(e) => Err(e),
        Ok(()) => match text::strip_suffix(s, "/Info.plist"@) {
            None => Err(
                ("invalid_ios_app_path"@, "The application metadata path must end in .app/Info.plist"@),
            ),
            Some(app) => app_path_check(app),
        },
    }
}

pub fn validate_ios_app_plist_path(value: &str) -> (r: Result<&str, ApiError>)
    ensures
        match plist_path_check(value@) {
            Ok(()) => r == Ok::<&str, ApiError>(value),
            Err((code, message)) => r matches Err(e) && is_error(e, code, message),
        },
{
    match validation::remote_path(value) {
        Ok(_) => {},
        Err(e) => {
            return Err(e);
        },
    }
    let cs = text::chars_of(value);
    let app = match text::strip_suffix_str(&cs, "/Info.plist") {
        Some(a) => a,
        None => {
            return Err(
                ApiError::new(
                    "invalid_ios_app_path",
                    "The application metadata path must end in .app/Info.plist",
                ),
            );
        },
    };
    let app_text = text::string_of(&app);
    match validate_ios_app_path(app_text.as_str()) {
        Ok(_) => Ok(value),
        Err(e) => Err(e),
    }
}

/// A path inside one of the system application roots.
pub open spec fn system_app_path(path: Seq<char>) -> bool {
    text::starts_with(path, "/Applications/"@) || text::starts_with(path, "/var/jb/Applications/"@)
}

pub fn is_system_app_path(path: &str) -> (r: bool)
    ensures
        r == system_app_path(path@),
{
    let cs = text::chars_of(path);
    text::starts_with_str(&cs, "/Applications/") || text::starts_with_str(&cs, "/var/jb/Applications/")
}

pub open spec fn scope_accepts(scope: IosInstalledAppScope, path: Seq<char>) -> bool {
    match scope {
        IosInstalledAppScope::All => true,
        IosInstalledAppScope::User => !system_app_path(path),
        IosInstalledAppScope::System => system_app_path(path),
    }
}

pub fn scope_accepts_path(scope: IosInstalledAppScope, path: &str) -> (r: bool)
    ensures
        r == scope_accepts(scope, path@),
{
    match scope {
        IosInstalledAppScope::All => true,
        IosInstalledAppScope::User => !is_system_app_path(path),
        IosInstalledAppScope::System => is_system_app_path(path),
    }
}

/// Which copy of a bundle listed twice is kept: `/Applications` first, then
/// the `/var` container roots, then the `/private` ones.
pub open spec fn path_preference(path: Seq<char>) -> u8 {
    if text::starts_with(path, "/Applications/"@) {
        0
    } else if text::starts_with(path, "/var/containers/"@) || text::starts_with(
        path,
        "/var/mobile/Containers/"@,
    ) {
        1
    } else if text::starts_with(path, "/private/"@) {
        2
    } else {
        3
    }
}

pub fn app_path_preference(path: &str) -> (r: u8)
    ensures
        r == path_preference(path@),
{
    let cs = text::chars_of(path);
    if text::starts_with_str(&cs, "/Applications/") {
        0
    } else if text::starts_with_str(&cs, "/var/containers/") || text::starts_with_str(
        &cs,
        "/var/mobile/Containers/",
    ) {
        1
    } else if text::starts_with_str(&cs, "/private/") {
        2
    } else {
        3
    }
}

pub fn prefer_app_path(candidate: &str, current: &str) -> (r: bool)
    ensures
        r == (path_preference(candidate@) < path_preference(current@)),
{
    app_path_preference(candidate) < app_path_preference(current)
}

/// The name of a bundle from its path (`iOS App` when it has none), at most
/// 256 characters.
pub open spec fn bundle_name(path: Seq<char>) -> Seq<char> {
    let last = match text::rsplit_once(path, seq!['/']) {
        Some((_, l)) => l,
        None => path,
    };
    let name = match text::strip_suffix(last, ".app"@) {
        Some(n) => if n.len() > 0 {
            n
        } else {
            "iOS App"@
        },
        None => "iOS App"@,
    };
    text::take_chars(name, 256)
}

pub fn app_bundle_name(path: &str) -> (r: String)
    ensures
        r@ == bundle_name(path@),
{
    let cs = text::chars_of(path);
    let slash: Vec<char> = vec!['/'];
    assert(slash@ =~= seq!['/']);
    let last = match text::rsplit_once_exec(&cs, &slash) {
        Some((_, l)) => l,
        None => cs,
    };
    let name = match text::strip_suffix_str(&last, ".app") {
        Some(n) => if n.len() > 0 {
            n
        } else {
            text::chars_of("iOS App")
        },
        None => text::chars_of("iOS App"),
    };
    text::string_of(&text::take_chars_exec(&name, 256))
}

pub open spec fn safe_component_char(c: char) -> char {
    if text::is_alnum(c) || c == '.' || c == '-' || c == '_' {
        c
    } else {
        '_'
    }
}

/// A local file-name component: characters other than ASCII letters,
/// digits, `.`, `-` and `_` become `_`.
pub fn safe_local_component(value: &str) -> (r: String)
    ensures
        r@ == value@.map_values(|c: char| safe_component_char(c)),
{
    let cs = text::chars_of(value);
    let mut out: Vec<char> = Vec::new();
    let mut i: usize = 0;
    while i < cs.len()
        invariant
            i <= cs@.len(),
            out@ == cs@.take(i as int).map_values(|c: char| safe_component_char(c)),
        decreases cs@.len() - i,
    {
        let c = cs[i];
        let m = if text::is_alnum_exec(c) || c == '.' || c == '-' || c == '_' {
            c
        } else {
            '_'
        };
        out.push(m);
        i = i + 1;
        assert(out@ =~= cs@.take(i as int).map_values(|c: char| safe_component_char(c)));
    }
    assert(cs@.take(cs@.len() as int) =~= cs@);
    text::string_of(&out)
}

/// Output kept in a result: `None` when blank, else its first `limit`
/// characters.
pub open spec fn limited_text(value: Seq<char>, limit: nat) -> Option<Seq<char>> {
    if text::trim(value).len() == 0 {
        None
    } else {
        Some(text::take_chars(value, limit))
    }
}

pub fn non_empty_limited(value: String, limit: usize) -> (r: Option<String>)
    ensures
        text::opt_view(r) == limited_text(value@, limit as nat),
{
    let cs = text::chars_of(value.as_str());
    if text::trim_exec(&cs).len() == 0 {
        return None;
    }
    Some(text::string_of(&text::take_chars_exec(&cs, limit)))
}


// ---------------------------------------------------------------------------
// Installing an IPA
// ---------------------------------------------------------------------------

/// The index of the first installer with this id.
pub open spec fn first_with_id(v: Seq<IosPackageInstaller>, id: IosPackageInstallerId) -> Option<int>
    decreases v.len(),
{
    if v.len() == 0 {
        None
    } else if v[0].id == id {
        Some(0)
    } else {
        match first_with_id(v.drop_first(), id) {
            Some(k) => Some(k + 1),
            None => None,
        }
    }
}

pub open spec fn installer_unavailable(requested: Option<IosPackageInstallerId>) -> Seq<char> {
    match requested {
        Some(id) => "The selected "@ + installer_id_name(id)
            + " installer is not available in a fixed supported device path"@,
        None => "No supported on-device IPA installer is available; install one on the test device yourself or use USB ideviceinstaller"@,
    }
}

/// The installer to use: the first of the requested kind, or the first
/// found (the preferred one) when none is requested.
pub fn select_installer(installers: &[IosPackageInstaller], requested: Option<IosPackageInstallerId>) -> (r:
    Result<IosPackageInstaller, ApiError>)
    ensures
        ({
            let k = match requested {
                Some(id) => first_with_id(installers@, id),
                None => if installers@.len() > 0 {
                    Some(0int)
                } else {
                    None
                },
            };
            match k {
                Some(k) => r matches Ok(i) && 0 <= k < installers@.len() && i.id == installers@[k].id
                    && i.name@ == installers@[k].name@ && i.path@ == installers@[k].path@,
                None => r matches Err(e) && is_error(
                    e,
                    "ios_package_installer_unavailable"@,
                    installer_unavailable(requested),
                ),
            }
        }),
{
    let mut found: Option<usize> = None;
    match requested {
        Some(id) => {
            let ghost v = installers@;
            let mut i: usize = 0;
            assert(v.skip(0) =~= v);
            while i < installers.len() && installers[i].id != id
                invariant
                    i <= installers@.len(),
                    v == installers@,
                    first_with_id(v, id) == text::shifted(first_with_id(v.skip(i as int), id), i as int),
                decreases installers@.len() - i,
            {
                assert(v.skip(i as int)[0] == v[i as int]);
                assert(v.skip(i as int).drop_first() =~= v.skip(i + 1));
                i = i + 1;
            }
            if i < installers.len() {
                assert(v.skip(i as int)[0] == v[i as int]);
                found = Some(i);
            } else {
                assert(v.skip(i as int) =~= Seq::<IosPackageInstaller>::empty());
            }
        },
        None => {
            if installers.len() > 0 {
                found = Some(0);
            }
        },
    }
    match found {
        Some(k) => {
            let i = &installers[k];
            Ok(IosPackageInstaller { id: i.id, name: text::copy_string(&i.name), path: text::copy_string(&i.path) })
        },
        None => {
            let message = match requested {
                Some(id) => {
                    let mut m = text::chars_of("The selected ");
                    text::append_str(&mut m, id.as_str());
                    text::append_str(&mut m, " installer is not available in a fixed supported device path");
                    text::string_of(&m)
                },
                None => text::copy_str(
                    "No supported on-device IPA installer is available; install one on the test device yourself or use USB ideviceinstaller",
                ),
            };
            Err(ApiError::with_message("ios_package_installer_unavailable", message))
        },
    }
}

/// The device command of an installation: the installer and the uploaded
/// IPA, each quoted, and nothing else.
pub fn build_installer_command(installer: &IosPackageInstaller, remote_path: &str) -> (r: String)
    ensures
        r@ == validation::quote(installer.path@) + seq![' '] + validation::quote(remote_path@),
{
    let a = validation::quote_remote(installer.path.as_str());
    let b = validation::quote_remote(remote_path);
    let mut out = text::chars_of(a.as_str());
    out.push(' ');
    text::append_str(&mut out, b.as_str());
    text::string_of(&out)
}

pub open spec fn install_warning() -> Seq<char> {
    "The device installer remains responsible for signature, trust, provisioning, and AppSync compatibility; Mobius leaves those checks unchanged"@
}

/// The result of a completed installation, with the outcome of the removal
/// of the uploaded IPA.
pub fn install_result(
    session_id: String,
    installer: IosPackageInstaller,
    package_name: Option<String>,
    remote_path: String,
    stdout: String,
    stderr: String,
    cleanup: Result<(), ApiError>,
) -> (r: IosPackageInstallResult)
    ensures
        r.success,
        r.message@ == "IPA installation completed through "@ + installer.name@,
        r.session_id@ == session_id@,
        r.installer.id == installer.id && r.installer.name@ == installer.name@ && r.installer.path@
            == installer.path@,
        text::opt_view(r.package_name) == text::opt_view(package_name),
        r.remote_temporary_path@ == remote_path@,
        r.temporary_file_cleaned == cleanup is Ok,
        text::opt_view(r.stdout) == limited_text(stdout@, 65536),
        text::opt_view(r.stderr) == limited_text(stderr@, 65536),
        text::string_views(r.warnings@) == match cleanup {
            Ok(()) => seq![install_warning()],
            Err(e) => seq![
                install_warning(),
                "The temporary uploaded IPA could not be removed: "@ + e.message@,
            ],
        },
{
    let mut warnings: Vec<String> = Vec::new();
    text::push_str(
        &mut warnings,
        "The device installer remains responsible for signature, trust, provisioning, and AppSync compatibility; Mobius leaves those checks unchanged",
    );
    let cleaned = match &cleanup {
        Ok(()) => true,
        Err(e) => {
            text::push_string(
                &mut warnings,
                text::concat_strs("The temporary uploaded IPA could not be removed: ", e.message.as_str()),
            );
            false
        },
    };
    proof {
        match cleanup {
            Ok(()) => {
                assert(text::string_views(warnings@) =~= seq![install_warning()]);
            },
            Err(e) => {
                assert(text::string_views(warnings@) =~= seq![
                    install_warning(),
                    "The temporary uploaded IPA could not be removed: "@ + e.message@,
                ]);
            },
        }
    }
    IosPackageInstallResult {
        success: true,
        message: text::concat_strs("IPA installation completed through ", installer.name.as_str()),
        session_id,
        installer,
        package_name,
        remote_temporary_path: remote_path,
        temporary_file_cleaned: cleaned,
        stdout: non_empty_limited(stdout, 65536),
        stderr: non_empty_limited(stderr, 65536),
        warnings,
    }
}

/// An error of a device operation, with the failure of the cleanup that
/// followed added to its message.
pub fn with_cleanup_failure(error: ApiError, cleanup: Result<(), ApiError>, what: &str) -> (r: ApiError)
    ensures
        r.code@ == error.code@,
        r.details == error.details,
        r.message@ == match cleanup {
            Ok(()) => error.message@,
            Err(c) => error.message@ + "; "@ + what@ + " cleanup also failed: "@ + c.message@,
        },
{
    match cleanup {
        Ok(()) => error,
        Err(c) => {
            let mut m = text::chars_of(error.message.as_str());
            text::append_str(&mut m, "; ");
            text::append_str(&mut m, what);
            text::append_str(&mut m, " cleanup also failed: ");
            text::append_str(&mut m, c.message.as_str());
            ApiError { code: error.code, message: text::string_of(&m), details: error.details }
        },
    }
}


// ---------------------------------------------------------------------------
// Listing installed applications
// ---------------------------------------------------------------------------

/// A tool that the probe must have found.
pub fn required_tool(value: &Option<String>, code: &str, message: &str) -> (r: Result<String, ApiError>)
    ensures
        match value {
            Some(v) => r matches Ok(s) && s@ == v@,
            None => r matches Err(e) && is_error(e, code@, message@),
        },
{
    match value {
        Some(v) => Ok(text::copy_string(v)),
        None => Err(ApiError::new(code, message)),
    }
}

/// The `plutil` dialect that the probe selected.
pub fn required_plutil_mode(mode: &Option<String>) -> (r: Result<PlutilMode, ApiError>)
    ensures
        match mode {
            Some(m) => match plutil_mode_of(m@) {
                Some(p) => r == Ok::<PlutilMode, ApiError>(p),
                None => r matches Err(e) && is_error(
                    e,
                    "ios_plutil_mode_unavailable"@,
                    "The device plutil dialect could not be selected safely"@,
                ),
            },
            None => r matches Err(e) && is_error(
                e,
                "ios_plutil_mode_unavailable"@,
                "The device plutil dialect could not be selected safely"@,
            ),
        },
{
    let parsed = match mode {
        Some(m) => parse_plutil_mode(m.as_str()),
        None => None,
    };
    match parsed {
        Some(p) => Ok(p),
        None => Err(
            ApiError::new("ios_plutil_mode_unavailable", "The device plutil dialect could not be selected safely"),
        ),
    }
}

pub const MAX_IOS_APPS: usize = 500;

pub const DEFAULT_IOS_APPS: usize = 300;

/// How many applications a listing returns: 300 unless asked, kept
/// between 1 and 500.
pub fn app_list_limit(requested: Option<u16>) -> (r: usize)
    ensures
        r == match requested {
            Some(n) => if n < 1 {
                1
            } else if n > 500 {
                500
            } else {
                n as usize
            },
            None => DEFAULT_IOS_APPS,
        },
{
    match requested {
        Some(n) => if n < 1 {
            1
        } else if n > 500 {
            500
        } else {
            n as usize
        },
        None => DEFAULT_IOS_APPS,
    }
}

/// The application roots searched for a scope.
pub open spec fn scope_roots(scope: IosInstalledAppScope) -> Seq<Seq<char>> {
    match scope {
        IosInstalledAppScope::All => system_roots() + user_roots(),
        IosInstalledAppScope::User => user_roots(),
        IosInstalledAppScope::System => system_roots(),
    }
}

pub fn roots_for_scope(scope: IosInstalledAppScope) -> (r: Vec<&'static str>)
    ensures
        r@.map_values(|p: &'static str| p@) == scope_roots(scope),
{
    let mut r: Vec<&'static str> = Vec::new();
    if scope != IosInstalledAppScope::User {
        r.push(system_root_at(0));
        r.push(system_root_at(1));
    }
    if scope != IosInstalledAppScope::System {
        r.push(user_root_at(0));
        r.push(user_root_at(1));
        r.push(user_root_at(2));
        r.push(user_root_at(3));
    }
    assert(r@.map_values(|p: &'static str| p@) =~= scope_roots(scope));
    r
}

/// The search of one root: bundles one level down in a system root, two
/// levels down (inside a container) in a user root, each printed as its
/// `Info.plist` path when that is a regular file and not a link.
pub open spec fn root_search(root: Seq<char>) -> Seq<char> {
    let q = validation::quote(root);
    let depth = if system_roots().contains(root) {
        seq!['1']
    } else {
        seq!['2']
    };
    "if [ -d "@ + q + " ]; then find "@ + q + " -xdev -mindepth "@ + depth + " -maxdepth "@ + depth
        + " -type d -name '*.app' -print 2>/dev/null | while IFS= read -r mobius_app; do if [ -f \"$mobius_app/Info.plist\" ] && [ ! -L \"$mobius_app/Info.plist\" ]; then printf '%s/Info.plist\\n' \"$mobius_app\"; fi; done; fi"@
}

/// The device command that prints at most `limit` metadata paths.
pub open spec fn discovery_command(roots: Seq<Seq<char>>, limit: nat) -> Seq<char> {
    "{ "@ + text::join(roots.map_values(|r: Seq<char>| root_search(r)), "; "@) + "; } | head -n "@
        + text::decimal(limit)
}

fn is_system_root(root: &str) -> (r: bool)
    ensures
        r == system_roots().contains(root@),
{
    let r = text::eq_str_str(root, system_root_at(0)) || text::eq_str_str(root, system_root_at(1));
    proof {
        if system_roots().contains(root@) {
            let k = choose|k: int| 0 <= k < system_roots().len() && system_roots()[k] == root@;
            assert(k == 0 || k == 1);
        }
        if root@ == system_roots()[0] {
            assert(system_roots().contains(root@));
        }
        if root@ == system_roots()[1] {
            assert(system_roots().contains(root@));
        }
    }
    r
}

pub fn app_path_discovery_command(roots: &Vec<&'static str>, limit: usize) -> (r: String)
    ensures
        r@ == discovery_command(roots@.map_values(|p: &'static str| p@), limit as nat),
{
    let ghost rs = roots@.map_values(|p: &'static str| p@);
    let mut parts: Vec<String> = Vec::new();
    let mut i: usize = 0;
    while i < roots.len()
        invariant
            i <= roots@.len(),
            rs == roots@.map_values(|p: &'static str| p@),
            text::string_views(parts@) == rs.take(i as int).map_values(|r: Seq<char>| root_search(r)),
        decreases roots@.len() - i,
    {
        let root = roots[i];
        let q = validation::quote_remote(root);
        let qs = q.as_str();
        let depth = if is_system_root(root) {
            "1"
        } else {
            "2"
        };
        proof {
            reveal_strlit("1");
            reveal_strlit("2");
        }
        let mut out = text::chars_of("if [ -d ");
        text::append_str(&mut out, qs);
        text::append_str(&mut out, " ]; then find ");
        text::append_str(&mut out, qs);
        text::append_str(&mut out, " -xdev -mindepth ");
        text::append_str(&mut out, depth);
        text::append_str(&mut out, " -maxdepth ");
        text::append_str(&mut out, depth);
        text::append_str(
            &mut out,
            " -type d -name '*.app' -print 2>/dev/null | while IFS= read -r mobius_app; do if [ -f \"$mobius_app/Info.plist\" ] && [ ! -L \"$mobius_app/Info.plist\" ]; then printf '%s/Info.plist\\n' \"$mobius_app\"; fi; done; fi",
        );
        assert(out@ =~= root_search(rs[i as int]));
        text::push_string(&mut parts, text::string_of(&out));
        i = i + 1;
        assert(text::string_views(parts@) =~= rs.take(i as int).map_values(|r: Seq<char>| root_search(r)));
    }
    assert(rs.take(roots@.len() as int) =~= rs);
    let joined = text::join_strings(&parts, "; ");
    let mut out = text::chars_of("{ ");
    text::append_str(&mut out, joined.as_str());
    text::append_str(&mut out, "; } | head -n ");
    text::append(&mut out, &text::decimal_exec(limit as u64));
    assert(out@ =~= discovery_command(rs, limit as nat));
    text::string_of(&out)
}

/// The metadata paths to read: the first `limit` printed lines (trimmed)
/// that are valid metadata paths, as a sorted set.
pub open spec fn valid_plist_lines(ls: Seq<Seq<char>>) -> Seq<Seq<char>>
    decreases ls.len(),
{
    if ls.len() == 0 {
        Seq::empty()
    } else if plist_path_check(ls.last()) is Ok {
        valid_plist_lines(ls.drop_last()).push(ls.last())
    } else {
        valid_plist_lines(ls.drop_last())
    }
}

/// `Iterator::take(n)`: the first `n` items, or all of them when fewer.
pub open spec fn first_n<A>(s: Seq<A>, n: nat) -> Seq<A> {
    if n < s.len() {
        s.take(n as int)
    } else {
        s
    }
}

pub fn select_app_plist_paths(stdout: &str, limit: usize) -> (r: Vec<String>)
    ensures
        text::sorted_set(text::string_views(r@)),
        forall|x: Seq<char>|
            text::string_views(r@).contains(x) <==> first_n(
                valid_plist_lines(text::trimmed_lines(stdout@)),
                limit as nat,
            ).contains(x),
{
    let ls = text::trimmed_lines_of(stdout);
    let ghost vs = text::views(ls@);
    let mut valid: Vec<String> = Vec::new();
    let mut i: usize = 0;
    assert(vs.take(0) =~= Seq::<Seq<char>>::empty());
    while i < ls.len()
        invariant
            i <= ls@.len(),
            vs == text::views(ls@),
            text::string_views(valid@) == valid_plist_lines(vs.take(i as int)),
        decreases ls@.len() - i,
    {
        assert(vs.take(i + 1).drop_last() =~= vs.take(i as int));
        assert(vs.take(i + 1).last() == ls@[i as int]@);
        let line = text::string_of(&ls[i]);
        if validate_ios_app_plist_path(line.as_str()).is_ok() {
            text::push_string(&mut valid, line);
        }
        i = i + 1;
    }
    assert(vs.take(ls@.len() as int) =~= vs);
    let n = if valid.len() < limit {
        valid.len()
    } else {
        limit
    };
    let ghost taken = first_n(text::string_views(valid@), limit as nat);
    assert(taken.len() == n);
    let mut out: Vec<String> = Vec::new();
    let mut k: usize = 0;
    while k < n
        invariant
            k <= n,
            n <= valid@.len(),
            taken.len() == n,
            forall|j: int| 0 <= j < n ==> #[trigger] taken[j] == valid@[j]@,
            text::sorted_set(text::string_views(out@)),
            forall|x: Seq<char>|
                text::string_views(out@).contains(x) <==> taken.take(k as int).contains(x),
        decreases n - k,
    {
        let ghost before = text::string_views(out@);
        text::insert_sorted_unique(&mut out, valid[k].as_str());
        proof {
            assert(taken[k as int] == valid@[k as int]@);
            assert(taken.take(k + 1) =~= taken.take(k as int).push(valid@[k as int]@));
            assert forall|x: Seq<char>| text::string_views(out@).contains(x) <==> taken.take(
                k + 1,
            ).contains(x) by {
                let t1 = taken.take(k + 1);
                let t0 = taken.take(k as int);
                if t1.contains(x) {
                    let j = choose|j: int| 0 <= j < t1.len() && #[trigger] t1[j] == x;
                    if j < k {
                        assert(t0[j] == x);
                    }
                }
                if t0.contains(x) {
                    let j = choose|j: int| 0 <= j < t0.len() && #[trigger] t0[j] == x;
                    assert(t1[j] == x);
                }
                if x == valid@[k as int]@ {
                    assert(t1[k as int] == x);
                }
            }
        }
        k = k + 1;
    }
    assert(taken.take(n as int) =~= taken);
    out
}

/// The `plutil` invocation that prints one key of a property list.
pub open spec fn plist_read(plutil: Seq<char>, mode: PlutilMode, key: Seq<char>, target: Seq<char>) -> Seq<char> {
    match mode {
        PlutilMode::Extract => plutil + " -extract "@ + key + " raw -o - "@ + target,
        PlutilMode::Key => plutil + " -key "@ + key + seq![' '] + target,
    }
}

pub fn plist_read_command(plutil: &str, mode: PlutilMode, key: &str, target: &str) -> (r: String)
    ensures
        r@ == plist_read(plutil@, mode, key@, target@),
{
    let mut out = text::chars_of(plutil);
    match mode {
        PlutilMode::Extract => {
            text::append_str(&mut out, " -extract ");
            text::append_str(&mut out, key);
            text::append_str(&mut out, " raw -o - ");
        },
        PlutilMode::Key => {
            text::append_str(&mut out, " -key ");
            text::append_str(&mut out, key);
            out.push(' ');
        },
    }
    text::append_str(&mut out, target);
    assert(out@ =~= plist_read(plutil@, mode, key@, target@));
    text::string_of(&out)
}


pub open spec fn encoded_field(var: Seq<char>, base64: Seq<char>) -> Seq<char> {
    "printf '%s' \"$"@ + var + "\" | "@ + base64 + " | tr -d '\\r\\n'; "@
}

/// The device command that prints one metadata row of a bundle: the path
/// and four keys of its `Info.plist`, each base64-encoded so that no value
/// can inject a field or a row.
pub open spec fn metadata_entry(path: Seq<char>, plutil: Seq<char>, mode: PlutilMode, base64: Seq<char>) -> Seq<char> {
    let t = "\"$mobius_plist\""@;
    "mobius_plist="@ + validation::quote(path) + "; mobius_id=$("@ + plist_read(
        plutil,
        mode,
        "CFBundleIdentifier"@,
        t,
    ) + " 2>/dev/null); mobius_name=$("@ + plist_read(plutil, mode, "CFBundleDisplayName"@, t)
        + " 2>/dev/null); if [ -z \"$mobius_name\" ]; then mobius_name=$("@ + plist_read(
        plutil,
        mode,
        "CFBundleName"@,
        t,
    ) + " 2>/dev/null); fi; mobius_version=$("@ + plist_read(
        plutil,
        mode,
        "CFBundleShortVersionString"@,
        t,
    ) + " 2>/dev/null); mobius_build=$("@ + plist_read(plutil, mode, "CFBundleVersion"@, t)
        + " 2>/dev/null); if [ -n \"$mobius_id\" ]; then printf 'MOBIUS_IOS_APP\\t'; "@
        + encoded_field("mobius_plist"@, base64) + "printf '\\t'; "@ + encoded_field(
        "mobius_id"@,
        base64,
    ) + "printf '\\t'; "@ + encoded_field("mobius_name"@, base64) + "printf '\\t'; "@
        + encoded_field("mobius_version"@, base64) + "printf '\\t'; "@ + encoded_field(
        "mobius_build"@,
        base64,
    ) + "printf '\\n'; fi"@
}

fn encoded_field_exec(out: &mut Vec<char>, var: &str, base64: &str)
    ensures
        final(out)@ == old(out)@ + encoded_field(var@, base64@),
{
    let ghost before = out@;
    text::append_str(out, "printf '%s' \"$");
    text::append_str(out, var);
    text::append_str(out, "\" | ");
    text::append_str(out, base64);
    text::append_str(out, " | tr -d '\\r\\n'; ");
    assert(out@ =~= before + encoded_field(var@, base64@));
}

fn metadata_entry_exec(path: &str, plutil: &str, mode: PlutilMode, base64: &str) -> (r: String)
    ensures
        r@ == metadata_entry(path@, plutil@, mode, base64@),
{
    let t = "\"$mobius_plist\"";
    let q = validation::quote_remote(path);
    let read_id = plist_read_command(plutil, mode, "CFBundleIdentifier", t);
    let read_display = plist_read_command(plutil, mode, "CFBundleDisplayName", t);
    let read_name = plist_read_command(plutil, mode, "CFBundleName", t);
    let read_version = plist_read_command(plutil, mode, "CFBundleShortVersionString", t);
    let read_build = plist_read_command(plutil, mode, "CFBundleVersion", t);
    let mut out = text::chars_of("mobius_plist=");
    text::append_str(&mut out, q.as_str());
    text::append_str(&mut out, "; mobius_id=$(");
    text::append_str(&mut out, read_id.as_str());
    text::append_str(&mut out, " 2>/dev/null); mobius_name=$(");
    text::append_str(&mut out, read_display.as_str());
    text::append_str(&mut out, " 2>/dev/null); if [ -z \"$mobius_name\" ]; then mobius_name=$(");
    text::append_str(&mut out, read_name.as_str());
    text::append_str(&mut out, " 2>/dev/null); fi; mobius_version=$(");
    text::append_str(&mut out, read_version.as_str());
    text::append_str(&mut out, " 2>/dev/null); mobius_build=$(");
    text::append_str(&mut out, read_build.as_str());
    text::append_str(&mut out, " 2>/dev/null); if [ -n \"$mobius_id\" ]; then printf 'MOBIUS_IOS_APP\\t'; ");
    encoded_field_exec(&mut out, "mobius_plist", base64);
    text::append_str(&mut out, "printf '\\t'; ");
    encoded_field_exec(&mut out, "mobius_id", base64);
    text::append_str(&mut out, "printf '\\t'; ");
    encoded_field_exec(&mut out, "mobius_name", base64);
    text::append_str(&mut out, "printf '\\t'; ");
    encoded_field_exec(&mut out, "mobius_version", base64);
    text::append_str(&mut out, "printf '\\t'; ");
    encoded_field_exec(&mut out, "mobius_build", base64);
    text::append_str(&mut out, "printf '\\n'; fi");
    assert(out@ =~= metadata_entry(path@, plutil@, mode, base64@));
    text::string_of(&out)
}

/// The device command that prints the metadata rows of a batch of bundles;
/// the tool paths are quoted once for all of them.
pub fn metadata_command(paths: &[String], plutil: &str, mode: PlutilMode, base64: &str) -> (r: String)
    ensures
        r@ == text::join(
            text::string_views(paths@).map_values(
                |p: Seq<char>|
                    metadata_entry(p, validation::quote(plutil@), mode, validation::quote(base64@)),
            ),
            "; "@,
        ),
{
    let qp = validation::quote_remote(plutil);
    let qb = validation::quote_remote(base64);
    let ghost ps = text::string_views(paths@);
    let mut entries: Vec<String> = Vec::new();
    let mut i: usize = 0;
    while i < paths.len()
        invariant
            i <= paths@.len(),
            ps == text::string_views(paths@),
            qp@ == validation::quote(plutil@),
            qb@ == validation::quote(base64@),
            text::string_views(entries@) == ps.take(i as int).map_values(
                |p: Seq<char>| metadata_entry(p, qp@, mode, qb@),
            ),
        decreases paths@.len() - i,
    {
        text::push_string(&mut entries, metadata_entry_exec(paths[i].as_str(), qp.as_str(), mode, qb.as_str()));
        i = i + 1;
        assert(text::string_views(entries@) =~= ps.take(i as int).map_values(
            |p: Seq<char>| metadata_entry(p, qp@, mode, qb@),
        ));
    }
    assert(ps.take(paths@.len() as int) =~= ps);
    text::join_strings(&entries, "; ")
}


// ---------------------------------------------------------------------------
// Metadata rows
// ---------------------------------------------------------------------------

/// One base64 field of a metadata row: the UTF-8 text of at most 4096
/// decoded bytes.
pub open spec fn decoded_field(f: Seq<char>) -> Option<Seq<char>> {
    match encoding::standard_decoded(f) {
        Some(b) => if b.len() > 4096 {
            None
        } else {
            encoding::utf8_decoded(b)
        },
        None => None,
    }
}

pub fn decode_field(value: &str) -> (r: Option<String>)
    ensures
        text::opt_view(r) == decoded_field(value@),
{
    let bytes = match encoding::decode_standard(value) {
        Some(b) => b,
        None => {
            return None;
        },
    };
    if bytes.len() > 4096 {
        return None;
    }
    encoding::string_from_utf8(bytes)
}

pub open spec fn nonblank(o: Option<Seq<char>>) -> Option<Seq<char>> {
    match o {
        Some(v) => if text::trim(v).len() > 0 {
            Some(v)
        } else {
            None
        },
        None => None,
    }
}

pub open spec fn take_opt(o: Option<Seq<char>>, n: nat) -> Option<Seq<char>> {
    match o {
        Some(v) => Some(text::take_chars(v, n)),
        None => None,
    }
}

/// An installed application as plain values: bundle id, display name,
/// version, build, bundle path and whether it is a system application.
pub type AppView = (Seq<char>, Seq<char>, Option<Seq<char>>, Option<Seq<char>>, Seq<char>, bool);

pub open spec fn app_view(a: IosInstalledApp) -> AppView {
    (a.bundle_id@, a.display_name@, text::opt_view(a.version_name), text::opt_view(a.build_version), a.app_path@, a.system)
}

pub open spec fn app_views(v: Seq<IosInstalledApp>) -> Seq<AppView> {
    v.map_values(|a: IosInstalledApp| app_view(a))
}

/// One metadata row: six tab-separated fields, the marker then the base64
/// of the metadata path, bundle id, display name, version and build. The
/// path and id must be valid; a blank display name falls back to the
/// bundle's name.
pub open spec fn app_row(line: Seq<char>) -> Option<AppView> {
    let f = text::split(line, '\t');
    if f.len() != 6 || f[0] != "MOBIUS_IOS_APP"@ {
        None
    } else {
        match decoded_field(f[1]) {
            None => None,
            Some(plist) => if plist_path_check(plist) is Err {
                None
            } else {
                match text::strip_suffix(plist, "/Info.plist"@) {
                    None => None,
                    Some(app) => match decoded_field(f[2]) {
                        None => None,
                        Some(id) => if !bundle_id_ok(id) {
                            None
                        } else {
                            let display = match nonblank(decoded_field(f[3])) {
                                Some(d) => d,
                                None => bundle_name(app),
                            };
                            Some(
                                (
                                    id,
                                    text::take_chars(display, 256),
                                    take_opt(nonblank(decoded_field(f[4])), 128),
                                    take_opt(nonblank(decoded_field(f[5])), 128),
                                    app,
                                    system_app_path(app),
                                ),
                            )
                        },
                    },
                }
            },
        }
    }
}

pub open spec fn app_rows(ls: Seq<Seq<char>>) -> Seq<AppView>
    decreases ls.len(),
{
    if ls.len() == 0 {
        Seq::empty()
    } else {
        match app_row(ls.last()) {
            Some(a) => app_rows(ls.drop_last()).push(a),
            None => app_rows(ls.drop_last()),
        }
    }
}

fn nonblank_field(value: &[char]) -> (r: Option<String>)
    ensures
        text::opt_view(r) == nonblank(decoded_field(value@)),
{
    let t = text::string_of(value);
    match decode_field(t.as_str()) {
        Some(v) => {
            let cs = text::chars_of(v.as_str());
            if text::trim_exec(&cs).len() > 0 {
                Some(v)
            } else {
                None
            }
        },
        None => None,
    }
}

fn limited(o: Option<String>, n: usize) -> (r: Option<String>)
    ensures
        text::opt_view(r) == take_opt(text::opt_view(o), n as nat),
{
    match o {
        Some(v) => {
            let cs = text::chars_of(v.as_str());
            Some(text::string_of(&text::take_chars_exec(&cs, n)))
        },
        None => None,
    }
}

fn parse_app_row(line: &[char]) -> (r: Option<IosInstalledApp>)
    ensures
        match app_row(line@) {
            Some(a) => r matches Some(x) && app_view(x) == a,
            None => r is None,
        },
{
    let f = text::split_exec(line, '\t');
    if f.len() != 6 || !text::eq_str(&f[0], "MOBIUS_IOS_APP") {
        return None;
    }
    let ghost fs = text::split(line@, '\t');
    assert(fs[1] == f@[1]@ && fs[2] == f@[2]@ && fs[3] == f@[3]@ && fs[4] == f@[4]@ && fs[5] == f@[5]@);
    let plist = match decode_field(text::string_of(&f[1]).as_str()) {
        Some(p) => p,
        None => {
            return None;
        },
    };
    if validate_ios_app_plist_path(plist.as_str()).is_err() {
        return None;
    }
    let pc = text::chars_of(plist.as_str());
    let app = match text::strip_suffix_str(&pc, "/Info.plist") {
        Some(a) => text::string_of(&a),
        None => {
            return None;
        },
    };
    let id = match decode_field(text::string_of(&f[2]).as_str()) {
        Some(i) => i,
        None => {
            return None;
        },
    };
    if validate_ios_bundle_id(id.as_str()).is_err() {
        return None;
    }
    let display = match nonblank_field(&f[3]) {
        Some(d) => d,
        None => app_bundle_name(app.as_str()),
    };
    let dc = text::chars_of(display.as_str());
    let display_name = text::string_of(&text::take_chars_exec(&dc, 256));
    let version_name = limited(nonblank_field(&f[4]), 128);
    let build_version = limited(nonblank_field(&f[5]), 128);
    let system = is_system_app_path(app.as_str());
    Some(IosInstalledApp { bundle_id: id, display_name, version_name, build_version, app_path: app, system })
}

/// The applications of the metadata rows, in row order; rows that do not
/// decode to a valid path and bundle id are skipped.
pub fn parse_app_metadata(output: &str) -> (r: Vec<IosInstalledApp>)
    ensures
        app_views(r@) == app_rows(text::lines(output@)),
{
    let ls = text::lines_of(output);
    let ghost vs = text::views(ls@);
    let mut out: Vec<IosInstalledApp> = Vec::new();
    let mut i: usize = 0;
    assert(vs.take(0) =~= Seq::<Seq<char>>::empty());
    while i < ls.len()
        invariant
            i <= ls@.len(),
            vs == text::views(ls@),
            vs == text::lines(output@),
            app_views(out@) == app_rows(vs.take(i as int)),
        decreases ls@.len() - i,
    {
        assert(vs.take(i + 1).drop_last() =~= vs.take(i as int));
        assert(vs.take(i + 1).last() == ls@[i as int]@);
        match parse_app_row(&ls[i]) {
            Some(a) => {
                let ghost before = out@;
                out.push(a);
                assert(app_views(out@) =~= app_views(before).push(app_view(a)));
            },
            None => {},
        }
        i = i + 1;
    }
    assert(vs.take(ls@.len() as int) =~= vs);
    out
}


// ---------------------------------------------------------------------------
// One entry per bundle, in display order
// ---------------------------------------------------------------------------

pub open spec fn ids_distinct(v: Seq<AppView>) -> bool {
    forall|i: int, j: int| 0 <= i < j < v.len() ==> (#[trigger] v[i]).0 != (#[trigger] v[j]).0
}

/// `v` after one more listed application: skipped outside the scope; a
/// bundle already present is replaced only by a copy in a preferred
/// location; a new bundle is added.
pub open spec fn merged(v: Seq<AppView>, a: AppView, scope: IosInstalledAppScope) -> Seq<AppView> {
    if !scope_accepts(scope, a.4) {
        v
    } else if exists|k: int| 0 <= k < v.len() && (#[trigger] v[k]).0 == a.0 {
        let k = choose|k: int| 0 <= k < v.len() && (#[trigger] v[k]).0 == a.0;
        if path_preference(a.4) < path_preference(v[k].4) {
            v.update(k, a)
        } else {
            v
        }
    } else {
        v.push(a)
    }
}

pub fn merge_installed_app(apps: &mut Vec<IosInstalledApp>, app: IosInstalledApp, scope: IosInstalledAppScope)
    requires
        ids_distinct(app_views(old(apps)@)),
    ensures
        app_views(final(apps)@) == merged(app_views(old(apps)@), app_view(app), scope),
        ids_distinct(app_views(final(apps)@)),
{
    let ghost v = app_views(apps@);
    let ghost a = app_view(app);
    if !scope_accepts_path(scope, app.app_path.as_str()) {
        return;
    }
    let mut k: usize = 0;
    while k < apps.len() && !text::eq_str_str(apps[k].bundle_id.as_str(), app.bundle_id.as_str())
        invariant
            k <= apps@.len(),
            v == app_views(apps@),
            a == app_view(app),
            forall|j: int| 0 <= j < k ==> (#[trigger] v[j]).0 != a.0,
        decreases apps@.len() - k,
    {
        assert(v[k as int].0 == apps@[k as int].bundle_id@);
        k = k + 1;
    }
    if k < apps.len() {
        assert(v[k as int].0 == a.0);
        proof {
            let c = choose|c: int| 0 <= c < v.len() && (#[trigger] v[c]).0 == a.0;
            if c != k {
                if c < k {
                    assert(v[c].0 != v[k as int].0);
                } else {
                    assert(v[k as int].0 != v[c].0);
                }
            }
        }
        if prefer_app_path(app.app_path.as_str(), apps[k].app_path.as_str()) {
            let ghost before = apps@;
            apps.set(k, app);
            assert(app_views(apps@) =~= v.update(k as int, a));
        }
    } else {
        let ghost before = apps@;
        apps.push(app);
        assert(app_views(apps@) =~= v.push(a));
    }
}

/// The display order: user applications before system ones, then by the
/// Unicode-lowercased display name, then by bundle id.
pub open spec fn app_key_lt(a: AppView, b: AppView) -> bool {
    let la = encoding::unicode_lowercase(a.1);
    let lb = encoding::unicode_lowercase(b.1);
    (!a.5 && b.5) || (a.5 == b.5 && (text::lex_lt(la, lb) || (la == lb && text::lex_lt(a.0, b.0))))
}

pub open spec fn sorted_apps(v: Seq<AppView>) -> bool {
    forall|i: int, j: int| 0 <= i < j < v.len() ==> app_key_lt(#[trigger] v[i], #[trigger] v[j])
}

proof fn lemma_key_order(a: AppView, b: AppView, c: AppView)
    ensures
        !app_key_lt(a, a),
        a.0 != b.0 ==> app_key_lt(a, b) || app_key_lt(b, a),
        !(app_key_lt(a, b) && app_key_lt(b, a)),
        app_key_lt(a, b) && app_key_lt(b, c) ==> app_key_lt(a, c),
{
    let la = encoding::unicode_lowercase(a.1);
    let lb = encoding::unicode_lowercase(b.1);
    let lc = encoding::unicode_lowercase(c.1);
    text::lemma_lex_irreflexive(la);
    text::lemma_lex_irreflexive(a.0);
    text::lemma_lex_total(la, lb);
    text::lemma_lex_total(a.0, b.0);
    if app_key_lt(a, b) && app_key_lt(b, c) {
        if text::lex_lt(la, lb) && text::lex_lt(lb, lc) {
            text::lemma_lex_transitive(la, lb, lc);
        }
        if text::lex_lt(a.0, b.0) && text::lex_lt(b.0, c.0) {
            text::lemma_lex_transitive(a.0, b.0, c.0);
        }
    }
}

fn copy_opt(o: &Option<String>) -> (r: Option<String>)
    ensures
        text::opt_view(r) == text::opt_view(*o),
{
    match o {
        Some(s) => Some(text::copy_string(s)),
        None => None,
    }
}

fn copy_app(a: &IosInstalledApp) -> (r: IosInstalledApp)
    ensures
        app_view(r) == app_view(*a),
{
    IosInstalledApp {
        bundle_id: text::copy_string(&a.bundle_id),
        display_name: text::copy_string(&a.display_name),
        version_name: copy_opt(&a.version_name),
        build_version: copy_opt(&a.build_version),
        app_path: text::copy_string(&a.app_path),
        system: a.system,
    }
}

fn key_less(a: &IosInstalledApp, la: &String, b: &IosInstalledApp, lb: &String) -> (r: bool)
    requires
        la@ == encoding::unicode_lowercase(a.display_name@),
        lb@ == encoding::unicode_lowercase(b.display_name@),
    ensures
        r == app_key_lt(app_view(*a), app_view(*b)),
{
    let ca = text::chars_of(la.as_str());
    let cb = text::chars_of(lb.as_str());
    let ia = text::chars_of(a.bundle_id.as_str());
    let ib = text::chars_of(b.bundle_id.as_str());
    (!a.system && b.system) || (a.system == b.system && (text::lex_less(&ca, &cb) || (text::seq_eq(
        &ca,
        &cb,
    ) && text::lex_less(&ia, &ib))))
}

/// The applications of a listing in display order, at most `limit` of
/// them: the result is ordered, made of listed applications, and every
/// listed application left out comes after all that were kept.
pub fn order_installed_apps(apps: &Vec<IosInstalledApp>, limit: usize) -> (r: Vec<IosInstalledApp>)
    requires
        ids_distinct(app_views(apps@)),
    ensures
        sorted_apps(app_views(r@)),
        r@.len() == (if limit < apps@.len() {
            limit as int
        } else {
            apps@.len() as int
        }),
        forall|x: AppView| #[trigger] app_views(r@).contains(x) ==> app_views(apps@).contains(x),
        forall|x: AppView, i: int|
            app_views(apps@).contains(x) && !app_views(r@).contains(x) && 0 <= i < r@.len()
                ==> #[trigger] app_key_lt(app_views(r@)[i], x),
{
    let ghost src = app_views(apps@);
    let mut sorted: Vec<IosInstalledApp> = Vec::new();
    let mut lows: Vec<String> = Vec::new();
    let mut i: usize = 0;
    while i < apps.len()
        invariant
            i <= apps@.len(),
            src == app_views(apps@),
            ids_distinct(src),
            sorted@.len() == i,
            lows@.len() == i,
            forall|j: int| 0 <= j < i ==> (#[trigger] lows@[j])@ == encoding::unicode_lowercase(
                sorted@[j].display_name@,
            ),
            sorted_apps(app_views(sorted@)),
            forall|x: AppView| app_views(sorted@).contains(x) <==> src.take(i as int).contains(x),
        decreases apps@.len() - i,
    {
        let a = copy_app(&apps[i]);
        let la = encoding::to_lowercase(a.display_name.as_str());
        let ghost av = app_view(a);
        let ghost sv = app_views(sorted@);
        assert(av == src[i as int]);
        let mut p: usize = 0;
        while p < sorted.len() && key_less(&sorted[p], &lows[p], &a, &la)
            invariant
                p <= sorted@.len(),
                sorted@.len() == i,
                lows@.len() == i,
                sv == app_views(sorted@),
                la@ == encoding::unicode_lowercase(a.display_name@),
                av == app_view(a),
                forall|j: int| 0 <= j < i ==> (#[trigger] lows@[j])@ == encoding::unicode_lowercase(
                    sorted@[j].display_name@,
                ),
                forall|j: int| 0 <= j < p ==> app_key_lt(#[trigger] sv[j], av),
            decreases sorted@.len() - p,
        {
            assert(sv[p as int] == app_view(sorted@[p as int]));
            p = p + 1;
        }
        // The new bundle id differs from every id already placed.
        assert forall|j: int| 0 <= j < sv.len() implies (#[trigger] sv[j]).0 != av.0 by {
            assert(sv.contains(sv[j]));
            let t = choose|t: int| 0 <= t < src.take(i as int).len() && src.take(i as int)[t] == sv[j];
            assert(src[t] == sv[j]);
            assert(t < i);
        }
        if p < sorted.len() {
            assert(sv[p as int] == app_view(sorted@[p as int]));
            proof {
                lemma_key_order(sv[p as int], av, av);
            }
        }
        sorted.insert(p, a);
        lows.insert(p, la);
        let ghost nv = app_views(sorted@);
        assert(nv =~= sv.insert(p as int, av));
        assert forall|x: int, y: int| 0 <= x < y < nv.len() implies app_key_lt(
            #[trigger] nv[x],
            #[trigger] nv[y],
        ) by {
            if y == p {
            } else if x == p {
                if y - 1 > p {
                    lemma_key_order(av, sv[p as int], sv[y - 1]);
                }
            } else {
            }
        }
        assert forall|j: int| 0 <= j < i + 1 implies (#[trigger] lows@[j])@
            == encoding::unicode_lowercase(sorted@[j].display_name@) by {
            if j < p {
            } else if j > p {
            }
        }
        proof {
            assert(src.take(i + 1) =~= src.take(i as int).push(av));
            assert forall|x: AppView| nv.contains(x) <==> src.take(i + 1).contains(x) by {
                let t1 = src.take(i + 1);
                let t0 = src.take(i as int);
                if nv.contains(x) {
                    let q = choose|q: int| 0 <= q < nv.len() && #[trigger] nv[q] == x;
                    if q < p {
                        assert(sv[q] == x);
                        assert(sv.contains(x));
                        let t = choose|t: int| 0 <= t < t0.len() && #[trigger] t0[t] == x;
                        assert(t1[t] == x);
                    } else if q > p {
                        assert(sv[q - 1] == x);
                        assert(sv.contains(x));
                        let t = choose|t: int| 0 <= t < t0.len() && #[trigger] t0[t] == x;
                        assert(t1[t] == x);
                    } else {
                        assert(t1[i as int] == x);
                    }
                }
                if t1.contains(x) {
                    let t = choose|t: int| 0 <= t < t1.len() && #[trigger] t1[t] == x;
                    if t < i {
                        assert(t0[t] == x);
                        assert(sv.contains(x));
                        let q = choose|q: int| 0 <= q < sv.len() && #[trigger] sv[q] == x;
                        if q < p {
                            assert(nv[q] == x);
                        } else {
                            assert(nv[q + 1] == x);
                        }
                    } else {
                        assert(nv[p as int] == x);
                    }
                }
            }
        }
        i = i + 1;
    }
    assert(src.take(apps@.len() as int) =~= src);
    let ghost full = app_views(sorted@);
    sorted.truncate(limit);
    let ghost kept = app_views(sorted@);
    proof {
        if limit <= full.len() {
            assert(kept =~= full.subrange(0, limit as int));
        } else {
            assert(kept =~= full);
        }
        assert forall|x: AppView| #[trigger] kept.contains(x) implies src.contains(x) by {
            let q = choose|q: int| 0 <= q < kept.len() && #[trigger] kept[q] == x;
            assert(full[q] == x);
            assert(full.contains(x));
        }
        assert forall|x: AppView, j: int|
            src.contains(x) && !kept.contains(x) && 0 <= j < sorted@.len() implies #[trigger] app_key_lt(
            kept[j],
            x,
        ) by {
            assert(full.contains(x));
            let q = choose|q: int| 0 <= q < full.len() && #[trigger] full[q] == x;
            if q < kept.len() {
                assert(kept[q] == x);
            }
            assert(kept[j] == full[j]);
        }
    }
    sorted
}


// ---------------------------------------------------------------------------
// Exporting a bundle
// ---------------------------------------------------------------------------

/// The device command that prints the physical path of a bundle directory
/// (refusing a link or anything but a directory).
pub open spec fn canonical_app_command(path: Seq<char>) -> Seq<char> {
    let q = validation::quote(path);
    "if [ -L "@ + q + " ] || [ ! -d "@ + q + " ]; then exit 74; fi; cd "@ + q
        + " && printf 'MOBIUS_APP_CANONICAL:%s\\n' \"$(pwd -P)\""@
}

pub fn canonical_app_path_command(path: &str) -> (r: String)
    ensures
        r@ == canonical_app_command(path@),
{
    let q = validation::quote_remote(path);
    let qs = q.as_str();
    let mut out = text::chars_of("if [ -L ");
    text::append_str(&mut out, qs);
    text::append_str(&mut out, " ] || [ ! -d ");
    text::append_str(&mut out, qs);
    text::append_str(&mut out, " ]; then exit 74; fi; cd ");
    text::append_str(&mut out, qs);
    text::append_str(&mut out, " && printf 'MOBIUS_APP_CANONICAL:%s\\n' \"$(pwd -P)\"");
    assert(out@ =~= canonical_app_command(path@));
    text::string_of(&out)
}

/// The value after a marker on the first output line that carries it.
pub fn marked_value(stdout: &str, marker: &str) -> (r: Option<String>)
    ensures
        text::opt_view(r) == text::first_stripped(text::lines(stdout@), marker@),
{
    let ls = text::lines_of(stdout);
    match text::first_stripped_exec(&ls, marker) {
        Some(v) => Some(text::string_of(&v)),
        None => None,
    }
}

/// The physical path printed for a bundle, which must still be a bundle in
/// a fixed application directory.
pub fn parse_canonical_app_path(stdout: &str) -> (r: Result<String, ApiError>)
    ensures
        match text::first_stripped(text::lines(stdout@), "MOBIUS_APP_CANONICAL:"@) {
            None => r matches Err(e) && is_error(
                e,
                "ios_app_path_validation_failed"@,
                "The device did not return a canonical application path"@,
            ),
            Some(p) => match app_path_check(p) {
                Ok(()) => r matches Ok(s) && s@ == p,
                Err((code, message)) => r matches Err(e) && is_error(e, code, message),
            },
        },
{
    let p = match marked_value(stdout, "MOBIUS_APP_CANONICAL:") {
        Some(p) => p,
        None => {
            return Err(
                ApiError::new(
                    "ios_app_path_validation_failed",
                    "The device did not return a canonical application path",
                ),
            );
        },
    };
    match validate_ios_app_path(p.as_str()) {
        Ok(_) => Ok(p),
        Err(e) => Err(e),
    }
}

/// The device command that prints the bundle id of a bundle's
/// `Info.plist` (refusing a link or anything but a file).
pub open spec fn bundle_id_command(plutil: Seq<char>, mode: PlutilMode, app_path: Seq<char>) -> Seq<char> {
    let plist = app_path + "/Info.plist"@;
    let q = validation::quote(plist);
    "if [ -L "@ + q + " ] || [ ! -f "@ + q + " ]; then exit 74; fi; mobius_id=$("@ + plist_read(
        validation::quote(plutil),
        mode,
        "CFBundleIdentifier"@,
        q,
    ) + " 2>/dev/null) && printf 'MOBIUS_APP_BUNDLE_ID:%s\\n' \"$mobius_id\""@
}

pub fn extract_bundle_id_command(plutil: &str, mode: PlutilMode, app_path: &str) -> (r: Result<
    String,
    ApiError,
>)
    ensures
        match plist_path_check(app_path@ + "/Info.plist"@) {
            Ok(()) => r matches Ok(s) && s@ == bundle_id_command(plutil@, mode, app_path@),
            Err((code, message)) => r matches Err(e) && is_error(e, code, message),
        },
{
    let plist = text::concat_strs(app_path, "/Info.plist");
    match validate_ios_app_plist_path(plist.as_str()) {
        Ok(_) => {},
        Err(e) => {
            return Err(e);
        },
    }
    let q = validation::quote_remote(plist.as_str());
    let qs = q.as_str();
    let qp = validation::quote_remote(plutil);
    let read = plist_read_command(qp.as_str(), mode, "CFBundleIdentifier", qs);
    let mut out = text::chars_of("if [ -L ");
    text::append_str(&mut out, qs);
    text::append_str(&mut out, " ] || [ ! -f ");
    text::append_str(&mut out, qs);
    text::append_str(&mut out, " ]; then exit 74; fi; mobius_id=$(");
    text::append_str(&mut out, read.as_str());
    text::append_str(&mut out, " 2>/dev/null) && printf 'MOBIUS_APP_BUNDLE_ID:%s\\n' \"$mobius_id\"");
    assert(out@ =~= bundle_id_command(plutil@, mode, app_path@));
    Ok(text::string_of(&out))
}

pub fn parse_bundle_id_output(stdout: &str) -> (r: Result<String, ApiError>)
    ensures
        match text::first_stripped(text::lines(stdout@), "MOBIUS_APP_BUNDLE_ID:"@) {
            None => r matches Err(e) && is_error(
                e,
                "ios_app_metadata_unavailable"@,
                "Unable to read CFBundleIdentifier from the selected app"@,
            ),
            Some(v) => if bundle_id_ok(v) {
                r matches Ok(s) && s@ == v
            } else {
                r matches Err(e) && is_error(
                    e,
                    "invalid_ios_bundle_id"@,
                    "The iOS bundle identifier is invalid"@,
                )
            },
        },
{
    let v = match marked_value(stdout, "MOBIUS_APP_BUNDLE_ID:") {
        Some(v) => v,
        None => {
            return Err(
                ApiError::new(
                    "ios_app_metadata_unavailable",
                    "Unable to read CFBundleIdentifier from the selected app",
                ),
            );
        },
    };
    match validate_ios_bundle_id(v.as_str()) {
        Ok(_) => Ok(v),
        Err(e) => Err(e),
    }
}

/// The bundle read from the device must still be the one that was listed.
pub fn check_bundle_identity(remote: &str, requested: &str) -> (r: Result<(), ApiError>)
    ensures
        remote@ == requested@ ==> r is Ok,
        remote@ != requested@ ==> (r matches Err(e) && is_error(
            e,
            "ios_app_identity_changed"@,
            "The selected application path no longer matches its listed bundle identifier; refresh the app list"@,
        )),
{
    if !text::eq_str_str(remote, requested) {
        return Err(
            ApiError::new(
                "ios_app_identity_changed",
                "The selected application path no longer matches its listed bundle identifier; refresh the app list",
            ),
        );
    }
    Ok(())
}

pub const MAX_APP_ARCHIVE_BYTES: u64 = 4294967296;

/// The device command that prints the size of a bundle in KiB.
pub fn app_size_command(app_path: &str) -> (r: String)
    ensures
        r@ == "mobius_kb=$(du -sk "@ + validation::quote(app_path@)
            + " 2>/dev/null | awk '{print $1}'); printf 'MOBIUS_APP_KB:%s\\n' \"$mobius_kb\""@,
{
    let q = validation::quote_remote(app_path);
    let mut out = text::chars_of("mobius_kb=$(du -sk ");
    text::append_str(&mut out, q.as_str());
    text::append_str(&mut out, " 2>/dev/null | awk '{print $1}'); printf 'MOBIUS_APP_KB:%s\\n' \"$mobius_kb\"");
    text::string_of(&out)
}

/// The number after a marker on the first line that carries it.
pub open spec fn marked_number(stdout: Seq<char>, marker: Seq<char>) -> Option<nat> {
    match text::first_stripped(text::lines(stdout), marker) {
        Some(v) => text::parse_uint(text::trim(v), u64::MAX as nat),
        None => None,
    }
}

fn marked_number_exec(stdout: &str, marker: &str) -> (r: Option<u64>)
    ensures
        match marked_number(stdout@, marker@) {
            Some(n) => r == Some(n as u64),
            None => r is None,
        },
{
    match marked_value(stdout, marker) {
        Some(v) => {
            let cs = text::chars_of(v.as_str());
            text::parse_uint_exec(&text::trim_exec(&cs), u64::MAX)
        },
        None => None,
    }
}

/// A bundle can be exported when its reported size is known, not zero and
/// at most 4 GiB.
pub fn check_app_size_output(stdout: &str) -> (r: Result<(), ApiError>)
    ensures
        match marked_number(stdout@, "MOBIUS_APP_KB:"@) {
            None => r matches Err(e) && is_error(
                e,
                "ios_app_size_unavailable"@,
                "Unable to determine the selected app bundle size"@,
            ),
            Some(kb) => if kb == 0 || kb * 1024 > MAX_APP_ARCHIVE_BYTES {
                r matches Err(e) && is_error(
                    e,
                    "ios_app_too_large"@,
                    "The selected app bundle is empty or exceeds the 4 GiB export safety limit"@,
                )
            } else {
                r is Ok
            },
        },
{
    let kb = match marked_number_exec(stdout, "MOBIUS_APP_KB:") {
        Some(k) => k,
        None => {
            return Err(
                ApiError::new("ios_app_size_unavailable", "Unable to determine the selected app bundle size"),
            );
        },
    };
    if kb == 0 || kb > MAX_APP_ARCHIVE_BYTES / 1024 {
        return Err(
            ApiError::new(
                "ios_app_too_large",
                "The selected app bundle is empty or exceeds the 4 GiB export safety limit",
            ),
        );
    }
    Ok(())
}

/// The device command that prints the size of a regular file.
pub fn remote_file_size_command(path: &str) -> (r: String)
    ensures
        r@ == "if [ -L "@ + validation::quote(path@) + " ] || [ ! -f "@ + validation::quote(path@)
            + " ]; then exit 74; fi; mobius_bytes=$(wc -c < "@ + validation::quote(path@)
            + "); printf 'MOBIUS_ARCHIVE_BYTES:%s\\n' \"$mobius_bytes\""@,
{
    let q = validation::quote_remote(path);
    let qs = q.as_str();
    let mut out = text::chars_of("if [ -L ");
    text::append_str(&mut out, qs);
    text::append_str(&mut out, " ] || [ ! -f ");
    text::append_str(&mut out, qs);
    text::append_str(&mut out, " ]; then exit 74; fi; mobius_bytes=$(wc -c < ");
    text::append_str(&mut out, qs);
    text::append_str(&mut out, "); printf 'MOBIUS_ARCHIVE_BYTES:%s\\n' \"$mobius_bytes\"");
    text::string_of(&out)
}

pub fn parse_remote_file_size(stdout: &str) -> (r: Result<u64, ApiError>)
    ensures
        match marked_number(stdout@, "MOBIUS_ARCHIVE_BYTES:"@) {
            Some(n) => r == Ok::<u64, ApiError>(n as u64),
            None => r matches Err(e) && is_error(
                e,
                "ios_app_archive_size_unavailable"@,
                "Unable to verify the generated device archive size"@,
            ),
        },
{
    match marked_number_exec(stdout, "MOBIUS_ARCHIVE_BYTES:") {
        Some(n) => Ok(n),
        None => Err(
            ApiError::new(
                "ios_app_archive_size_unavailable",
                "Unable to verify the generated device archive size",
            ),
        ),
    }
}

/// The archive made on the device must be neither empty nor over 4 GiB.
pub fn check_archive_size(size: u64) -> (r: Result<(), ApiError>)
    ensures
        (size == 0 || size > MAX_APP_ARCHIVE_BYTES) ==> (r matches Err(e) && is_error(
            e,
            "ios_app_archive_size_invalid"@,
            "The generated app analysis archive is empty or exceeds 4 GiB"@,
        )),
        !(size == 0 || size > MAX_APP_ARCHIVE_BYTES) ==> r is Ok,
{
    if size == 0 || size > MAX_APP_ARCHIVE_BYTES {
        return Err(
            ApiError::new(
                "ios_app_archive_size_invalid",
                "The generated app analysis archive is empty or exceeds 4 GiB",
            ),
        );
    }
    Ok(())
}

/// The downloaded archive must have the size of the device archive.
pub fn check_copied_size(copied: u64, expected: u64) -> (r: Result<(), ApiError>)
    ensures
        copied == expected ==> r is Ok,
        copied != expected ==> (r matches Err(e) && is_error(
            e,
            "ios_export_size_mismatch"@,
            "The downloaded archive size does not match the device archive"@,
        )),
{
    if copied != expected {
        return Err(
            ApiError::new(
                "ios_export_size_mismatch",
                "The downloaded archive size does not match the device archive",
            ),
        );
    }
    Ok(())
}

/// The session's directory for temporary files: `.mobius-runtime` below
/// its first physical root.
pub open spec fn runtime_dir(c: IosSshConnection) -> Option<Seq<char>> {
    if c.allowed_roots@.len() == 0 {
        None
    } else {
        Some(text::trim_end_char(c.allowed_roots@[0]@, '/') + "/.mobius-runtime"@)
    }
}

pub fn runtime_directory(connection: &IosSshConnection) -> (r: Result<String, ApiError>)
    ensures
        match runtime_dir(*connection) {
            Some(d) => r matches Ok(s) && s@ == d,
            None => r matches Err(e) && is_error(
                e,
                "invalid_allowed_roots"@,
                "The SSH session has no allowed root for temporary application operations"@,
            ),
        },
{
    if connection.allowed_roots.len() == 0 {
        return Err(
            ApiError::new(
                "invalid_allowed_roots",
                "The SSH session has no allowed root for temporary application operations",
            ),
        );
    }
    let root = text::chars_of(connection.allowed_roots[0].as_str());
    let mut out = text::trim_end_char_exec(&root, '/');
    text::append_str(&mut out, "/.mobius-runtime");
    Ok(text::string_of(&out))
}

/// Temporary paths must lie in the runtime directory.
pub open spec fn runtime_path_check(c: IosSshConnection, value: Seq<char>) -> Result<(), (Seq<char>, Seq<char>)> {
    match validation::remote_path_check(value) {
        Err(e) => Err(e),
        Ok(()) => match runtime_dir(c) {
            None => Err(
                (
                    "invalid_allowed_roots"@,
                    "The SSH session has no allowed root for temporary application operations"@,
                ),
            ),
            Some(d) => if crate::ios_ssh::path_within(value, d) {
                Ok(())
            } else {
                Err(
                    (
                        "unsafe_ios_app_runtime_path"@,
                        "The temporary application path is outside Mobius's session runtime directory"@,
                    ),
                )
            },
        },
    }
}

pub fn validate_runtime_path(connection: &IosSshConnection, value: &str) -> (r: Result<(), ApiError>)
    ensures
        match runtime_path_check(*connection, value@) {
            Ok(()) => r is Ok,
            Err((code, message)) => r matches Err(e) && is_error(e, code, message),
        },
{
    match validation::remote_path(value) {
        Ok(_) => {},
        Err(e) => {
            return Err(e);
        },
    }
    let runtime = match runtime_directory(connection) {
        Ok(d) => d,
        Err(e) => {
            return Err(e);
        },
    };
    if crate::ios_ssh::is_path_within(value, runtime.as_str()) {
        Ok(())
    } else {
        Err(
            ApiError::new(
                "unsafe_ios_app_runtime_path",
                "The temporary application path is outside Mobius's session runtime directory",
            ),
        )
    }
}

/// The device command that creates the runtime directory (mode 700) and
/// checks that it is not reached through a link.
pub fn prepare_runtime_command(directory: &str) -> (r: String)
    ensures
        r@ == "if [ -L "@ + validation::quote(directory@) + " ]; then exit 74; fi; mkdir -p "@
            + validation::quote(directory@) + " && chmod 700 "@ + validation::quote(directory@)
            + " && cd "@ + validation::quote(directory@) + " && [ \"$(pwd -P)\" = "@ + validation::quote(
            directory@,
        ) + " ]"@,
{
    let q = validation::quote_remote(directory);
    let qs = q.as_str();
    let mut out = text::chars_of("if [ -L ");
    text::append_str(&mut out, qs);
    text::append_str(&mut out, " ]; then exit 74; fi; mkdir -p ");
    text::append_str(&mut out, qs);
    text::append_str(&mut out, " && chmod 700 ");
    text::append_str(&mut out, qs);
    text::append_str(&mut out, " && cd ");
    text::append_str(&mut out, qs);
    text::append_str(&mut out, " && [ \"$(pwd -P)\" = ");
    text::append_str(&mut out, qs);
    text::append_str(&mut out, " ]");
    text::string_of(&out)
}

/// The device command that removes a temporary file and then the runtime
/// directory when it is empty, confirming with a marker.
pub fn cleanup_command(connection: &IosSshConnection, runtime: &str, remote_path: &str) -> (r: Result<
    String,
    ApiError,
>)
    ensures
        match (runtime_path_check(*connection, runtime@), runtime_path_check(*connection, remote_path@)) {
            (Err((code, message)), _) => r matches Err(e) && is_error(e, code, message),
            (Ok(()), Err((code, message))) => r matches Err(e) && is_error(e, code, message),
            (Ok(()), Ok(())) => r matches Ok(s) && s@ == "if rm -f "@ + validation::quote(remote_path@)
                + "; then cd /; rmdir "@ + validation::quote(runtime@)
                + " 2>/dev/null || true; printf 'MOBIUS_IOS_CLEANUP_OK\\n'; else exit 75; fi"@,
        },
{
    match validate_runtime_path(connection, runtime) {
        Ok(()) => {},
        Err(e) => {
            return Err(e);
        },
    }
    match validate_runtime_path(connection, remote_path) {
        Ok(()) => {},
        Err(e) => {
            return Err(e);
        },
    }
    let mut out = text::chars_of("if rm -f ");
    text::append_str(&mut out, validation::quote_remote(remote_path).as_str());
    text::append_str(&mut out, "; then cd /; rmdir ");
    text::append_str(&mut out, validation::quote_remote(runtime).as_str());
    text::append_str(&mut out, " 2>/dev/null || true; printf 'MOBIUS_IOS_CLEANUP_OK\\n'; else exit 75; fi");
    Ok(text::string_of(&out))
}

/// The device must confirm the cleanup.
pub fn check_cleanup_output(stdout: &str) -> (r: Result<(), ApiError>)
    ensures
        text::has_trimmed_line(text::lines(stdout@), "MOBIUS_IOS_CLEANUP_OK"@) ==> r is Ok,
        !text::has_trimmed_line(text::lines(stdout@), "MOBIUS_IOS_CLEANUP_OK"@) ==> (r matches Err(e)
            && is_error(
            e,
            "ios_temporary_cleanup_unconfirmed"@,
            "The device did not confirm temporary-file cleanup"@,
        )),
{
    let ls = text::lines_of(stdout);
    if text::has_trimmed_line_exec(&ls, "MOBIUS_IOS_CLEANUP_OK") {
        Ok(())
    } else {
        Err(
            ApiError::new(
                "ios_temporary_cleanup_unconfirmed",
                "The device did not confirm temporary-file cleanup",
            ),
        )
    }
}

/// The path of a temporary file in the runtime directory.
pub fn runtime_file(runtime: &str, stem: &str, nonce: &str, extension: &str) -> (r: String)
    ensures
        r@ == runtime@ + seq!['/'] + stem@ + nonce@ + extension@,
{
    let mut out = text::chars_of(runtime);
    out.push('/');
    text::append_str(&mut out, stem);
    text::append_str(&mut out, nonce);
    text::append_str(&mut out, extension);
    text::string_of(&out)
}

/// The device command that archives a bundle from inside its physical
/// parent directory.
pub open spec fn archive_cmd(parent: Seq<char>, name: Seq<char>, tar: Seq<char>, archive: Seq<char>) -> Seq<char> {
    let p = validation::quote(parent);
    "cd "@ + p + " && [ \"$(pwd -P)\" = "@ + p + " ] && "@ + validation::quote(tar) + " -czf "@
        + validation::quote(archive) + " -- "@ + validation::quote(seq!['.', '/'] + name)
}

pub fn archive_command(app_path: &str, tar: &str, archive: &str) -> (r: Result<String, ApiError>)
    ensures
        match text::rsplit_once(app_path@, seq!['/']) {
            Some((parent, name)) => r matches Ok(s) && s@ == archive_cmd(parent, name, tar@, archive@),
            None => r matches Err(e) && is_error(
                e,
                "invalid_ios_app_path"@,
                "The app path has no parent directory"@,
            ),
        },
{
    let cs = text::chars_of(app_path);
    let slash: Vec<char> = vec!['/'];
    assert(slash@ =~= seq!['/']);
    let (parent, name) = match text::rsplit_once_exec(&cs, &slash) {
        Some(pair) => pair,
        None => {
            return Err(ApiError::new("invalid_ios_app_path", "The app path has no parent directory"));
        },
    };
    let p = validation::quote_chars(&parent);
    let mut bundle: Vec<char> = vec!['.', '/'];
    text::append(&mut bundle, &name);
    let mut out = text::chars_of("cd ");
    text::append(&mut out, &p);
    text::append_str(&mut out, " && [ \"$(pwd -P)\" = ");
    text::append(&mut out, &p);
    text::append_str(&mut out, " ] && ");
    text::append_str(&mut out, validation::quote_remote(tar).as_str());
    text::append_str(&mut out, " -czf ");
    text::append_str(&mut out, validation::quote_remote(archive).as_str());
    text::append_str(&mut out, " -- ");
    text::append(&mut out, &validation::quote_chars(&bundle));
    assert(bundle@ =~= seq!['.', '/'] + name@);
    assert(out@ =~= archive_cmd(parent@, name@, tar@, archive@));
    Ok(text::string_of(&out))
}

/// The local name of an export: `<bundle id>-mobius-app.tar.gz`, the id
/// made safe as a file name.
pub fn export_file_name(bundle_id: &str) -> (r: String)
    ensures
        r@ == bundle_id@.map_values(|c: char| safe_component_char(c)) + "-mobius-app.tar.gz"@,
{
    let safe = safe_local_component(bundle_id);
    text::concat_strs(safe.as_str(), "-mobius-app.tar.gz")
}

/// An export never writes through a link or onto a directory, and replaces
/// a file only when asked.
pub fn check_export_target(is_symlink: bool, present: bool, is_dir: bool, overwrite: bool, display: &str) -> (r:
    Result<(), ApiError>)
    ensures
        is_symlink ==> (r matches Err(e) && is_error(
            e,
            "unsafe_export_target"@,
            "Refusing to overwrite a local symbolic link"@,
        )),
        !is_symlink && present && is_dir ==> (r matches Err(e) && is_error(
            e,
            "invalid_export_target"@,
            "The export target is an existing directory"@,
        )),
        !is_symlink && present && !is_dir && !overwrite ==> (r matches Err(e) && is_error(
            e,
            "export_file_exists"@,
            "Export target already exists: "@ + display@,
        )),
        !is_symlink && (!present || (!is_dir && overwrite)) ==> r is Ok,
{
    if is_symlink {
        return Err(ApiError::new("unsafe_export_target", "Refusing to overwrite a local symbolic link"));
    }
    if present && is_dir {
        return Err(ApiError::new("invalid_export_target", "The export target is an existing directory"));
    }
    if present && !overwrite {
        return Err(
            ApiError::with_message(
                "export_file_exists",
                text::concat_strs("Export target already exists: ", display),
            ),
        );
    }
    Ok(())
}

/// The result of a finished export, with a warning when the device archive
/// could not be removed.
pub fn export_result(
    session_id: String,
    bundle_id: String,
    app_path: String,
    local_path: String,
    size_bytes: u64,
    cleanup: Result<(), ApiError>,
) -> (r: IosAppExportResult)
    ensures
        r.success && !r.installable,
        r.message@ == "Exported .app bundle as a development-analysis tar.gz archive"@,
        r.session_id@ == session_id@,
        r.bundle_id@ == bundle_id@,
        r.app_path@ == app_path@,
        r.local_path@ == local_path@,
        r.format@ == "analysisTarGz"@,
        r.size_bytes == size_bytes,
        r.encryption_status@ == "unknown"@,
        text::string_views(r.warnings@) == seq![
            "This is a development-analysis .app tar.gz archive, not an IPA, and it is not guaranteed to be installable"@,
            "Executable protection state is not determined; Mobius does not change it or reconstruct signatures, provisioning, or a distributable IPA"@,
        ] + match cleanup {
            Ok(()) => Seq::<Seq<char>>::empty(),
            Err(e) => seq!["The temporary device archive could not be removed: "@ + e.message@],
        },
{
    let mut warnings: Vec<String> = Vec::new();
    text::push_str(
        &mut warnings,
        "This is a development-analysis .app tar.gz archive, not an IPA, and it is not guaranteed to be installable",
    );
    text::push_str(
        &mut warnings,
        "Executable protection state is not determined; Mobius does not change it or reconstruct signatures, provisioning, or a distributable IPA",
    );
    let ghost base = text::string_views(warnings@);
    match &cleanup {
        Ok(()) => {},
        Err(e) => {
            text::push_string(
                &mut warnings,
                text::concat_strs("The temporary device archive could not be removed: ", e.message.as_str()),
            );
        },
    }
    proof {
        match cleanup {
            Ok(()) => {
                assert(text::string_views(warnings@) =~= base + Seq::<Seq<char>>::empty());
            },
            Err(e) => {
                assert(text::string_views(warnings@) =~= base + seq![
                    "The temporary device archive could not be removed: "@ + e.message@,
                ]);
            },
        }
    }
    IosAppExportResult {
        success: true,
        message: text::copy_str("Exported .app bundle as a development-analysis tar.gz archive"),
        session_id,
        bundle_id,
        app_path,
        local_path,
        format: text::copy_str("analysisTarGz"),
        size_bytes,
        installable: false,
        encryption_status: text::copy_str("unknown"),
        warnings,
    }
}

/// A failed export: its code and message, with the failure of the device
/// cleanup added to the message (the details are dropped then).
pub fn export_failure(error: ApiError, cleanup: Result<(), ApiError>) -> (r: ApiError)
    ensures
        match cleanup {
            Ok(()) => r == error,
            Err(c) => is_error(
                r,
                error.code@,
                error.message@ + "; temporary device archive cleanup also failed: "@ + c.message@,
            ),
        },
{
    match cleanup {
        Ok(()) => error,
        Err(c) => {
            let mut m = text::chars_of(error.message.as_str());
            text::append_str(&mut m, "; temporary device archive cleanup also failed: ");
            text::append_str(&mut m, c.message.as_str());
            ApiError::with_message(error.code.as_str(), text::string_of(&m))
        },
    }
}

} // verus!
