//! The host tools the application checks, and how each tool's health is
//! reported from its resolution and version check.
use crate::error::{ApiError, ProcessOutput};
use crate::models::ToolHealth;
use crate::text;
use crate::toolchain::{source_name, ToolSource};
use vstd::prelude::*;

verus! {

/// A host tool: its id, display name, version argument (none when the tool
/// has no reliable version flag), purpose, whether it is required, and how
/// to install it.
#[derive(Debug, Clone, Copy)]
pub struct ToolSpec {
    pub id: &'static str,
    pub name: &'static str,
    pub version_arg: Option<&'static str>,
    pub purpose: &'static str,
    pub required: bool,
    pub install_hint: &'static str,
}

pub open spec fn tool_ids() -> Seq<Seq<char>> {
    seq![
        "adb"@,
        "scrcpy"@,
        "ffmpeg"@,
        "frida"@,
        "aapt2"@,
        "apkanalyzer"@,
        "idevice_id"@,
        "ideviceinfo"@,
        "idevicepair"@,
        "ideviceinstaller"@,
        "idevicescreenshot"@,
        "idevicesyslog"@,
        "iproxy"@,
        "ssh"@,
        "scp"@,
    ]
}

/// The version argument of each tool, in table order.
pub open spec fn version_args() -> Seq<Option<Seq<char>>> {
    seq![
        Some("version"@),
        Some("--version"@),
        Some("-version"@),
        Some("--version"@),
        Some("version"@),
        None,
        Some("--version"@),
        Some("--version"@),
        Some("--version"@),
        Some("--version"@),
        Some("--version"@),
        Some("--version"@),
        Some("--version"@),
        Some("-V"@),
        None,
    ]
}

/// Which tools are required, in table order.
pub open spec fn required_tools() -> Seq<bool> {
    seq![true, false, false, false, false, false, true, true, false, false, false, false, false, true, true]
}

fn spec_entry(
    id: &'static str,
    name: &'static str,
    version_arg: Option<&'static str>,
    purpose: &'static str,
    required: bool,
    install_hint: &'static str,
) -> (t: ToolSpec)
    ensures
        t == (ToolSpec { id, name, version_arg, purpose, required, install_hint }),
{
    ToolSpec { id, name, version_arg, purpose, required, install_hint }
}

/// The checked tools, in the order they are reported.
pub fn tool_specs() -> (r: Vec<ToolSpec>)
    ensures
        r@.len() == 15,
        forall|k: int| 0 <= k < 15 ==> (#[trigger] r@[k]).id@ == tool_ids()[k],
        forall|k: int| 0 <= k < 15 ==> (match (#[trigger] r@[k]).version_arg {
            Some(a) => Some(a@),
            None => None,
        }) == version_args()[k],
        forall|k: int| 0 <= k < 15 ==> (#[trigger] r@[k]).required == required_tools()[k],
{
    let mut v: Vec<ToolSpec> = Vec::new();
    v.push(spec_entry("adb", "Android Debug Bridge", Some("version"),
        "Android device discovery, shell, files, networking, install and export", true,
        "Install Android SDK Platform-Tools or select the adb executable in Toolchain settings."));
    v.push(spec_entry("scrcpy", "scrcpy", Some("--version"),
        "Android screen mirroring and interactive control", false,
        "Install scrcpy from its official release or package manager, or select its executable."));
    v.push(spec_entry("ffmpeg", "FFmpeg", Some("-version"),
        "Decode the private scrcpy H.264 stream for the embedded cross-platform screen view", false,
        "Install ffmpeg or place it in the configured managed tools directory to enable embedded live Android video."));
    v.push(spec_entry("frida", "Frida CLI", Some("--version"),
        "Host-side Frida client used with a user-supplied device server", false,
        "Install frida-tools in an isolated Python environment or select the frida executable."));
    v.push(spec_entry("aapt2", "Android Asset Packaging Tool", Some("version"),
        "Detailed APK manifest, version, label and permission analysis", false,
        "Install Android SDK Build-Tools or point the managed tools directory at aapt2."));
    v.push(spec_entry("apkanalyzer", "Android APK Analyzer", None,
        "Secondary APK metadata analyzer when aapt2 is unavailable", false,
        "Install Android SDK Command-line Tools or provide apkanalyzer in a configured tools directory."));
    v.push(spec_entry("idevice_id", "iOS Device Discovery", Some("--version"),
        "USB/network discovery of paired iOS devices", true,
        "Install libimobiledevice or provide its iOS command directory."));
    v.push(spec_entry("ideviceinfo", "iOS Device Info", Some("--version"),
        "Read paired iOS device identity and operating-system information", true,
        "Install libimobiledevice or provide its iOS command directory."));
    v.push(spec_entry("idevicepair", "iOS Pairing Status", Some("--version"),
        "Validate the selected iOS device pairing and trust relationship", false,
        "Install libimobiledevice or provide idevicepair in the configured iOS tools directory."));
    v.push(spec_entry("ideviceinstaller", "iOS Package Installer", Some("--version"),
        "Install signed IPA packages on trusted or jailbreak-enabled devices", false,
        "Install ideviceinstaller or provide it in the configured iOS tools directory."));
    v.push(spec_entry("idevicescreenshot", "iOS Screenshot Service Client", Some("--version"),
        "Capture a paired iOS device screen for inline preview and screenshots", false,
        "Install libimobiledevice with idevicescreenshot, then pair/trust the device and mount its matching Developer Disk Image."));
    v.push(spec_entry("idevicesyslog", "iOS System Log Relay", Some("--version"),
        "Capture a bounded system-log snapshot from a selected iOS device", false,
        "Install libimobiledevice or provide idevicesyslog in the configured iOS tools directory."));
    v.push(spec_entry("iproxy", "USB Port Tunnel", Some("--version"),
        "Expose a jailbreak device SSH port over its USB connection", false,
        "Install usbmuxd/libusbmuxd tools or provide iproxy in the iOS tools directory."));
    v.push(spec_entry("ssh", "OpenSSH Client", Some("-V"),
        "Authenticated command execution on an explicitly selected jailbreak device", true,
        "Enable or install the operating system OpenSSH Client, or provide ssh in the iOS tools directory."));
    v.push(spec_entry("scp", "OpenSSH Secure Copy", None,
        "File transfer to and from an explicitly selected jailbreak device", true,
        "Enable or install the operating system OpenSSH Client, or provide scp in the iOS tools directory."));
    assert(v@.len() == 15);
    v
}

/// The first non-blank line of a version report, trimmed, at most 240
/// characters.
pub open spec fn meaningful_line(value: Seq<char>) -> Option<Seq<char>> {
    match text::first_nonblank(text::lines(value)) {
        Some(l) => Some(text::take_chars(l, 240)),
        None => None,
    }
}

pub fn first_meaningful_line(value: &str) -> (r: Option<String>)
    ensures
        text::opt_view(r) == meaningful_line(value@),
{
    let ls = text::lines_of(value);
    match text::first_nonblank_exec(&ls) {
        Some(l) => Some(text::string_of(&text::take_chars_exec(&l, 240))),
        None => None,
    }
}

/// The health record shared by every outcome.
pub open spec fn health_base(h: ToolHealth, spec: ToolSpec) -> bool {
    &&& h.id@ == spec.id@
    &&& h.name@ == spec.name@
    &&& h.purpose@ == spec.purpose@
    &&& h.required == spec.required
    &&& h.install_hint@ == spec.install_hint@
}

/// A tool that could not be resolved is `missing`, with the reason as hint.
pub fn missing_health(spec: &ToolSpec, error: ApiError) -> (h: ToolHealth)
    ensures
        health_base(h, *spec),
        h.version is None && h.path is None && h.source is None,
        h.state@ == "missing"@,
        text::opt_view(h.hint) == Some(error.message@),
{
    ToolHealth {
        id: text::copy_str(spec.id),
        name: text::copy_str(spec.name),
        version: None,
        state: text::copy_str("missing"),
        path: None,
        source: None,
        purpose: text::copy_str(spec.purpose),
        required: spec.required,
        install_hint: text::copy_str(spec.install_hint),
        hint: Some(error.message),
    }
}

/// The state, version and hint of a resolved tool after its version check
/// (none when the tool has no version argument): `ready` with the first
/// meaningful line of the report (standard output, or the error output when
/// that is empty) when it exited 0 in time; otherwise `warning` with the
/// reason.
pub open spec fn checked_state(check: Option<Result<ProcessOutput, ApiError>>) -> (Seq<char>, Option<Seq<char>>, Option<Seq<char>>) {
    match check {
        None => ("ready"@, None, None),
        Some(Ok(o)) => if o.exit_code == Some(0i32) && !o.timed_out {
            (
                "ready"@,
                meaningful_line(
                    if o.stdout@.len() == 0 {
                        o.stderr@
                    } else {
                        o.stdout@
                    },
                ),
                None,
            )
        } else if o.timed_out {
            ("warning"@, None, Some("Version check timed out"@))
        } else if o.stderr@.len() == 0 {
            ("warning"@, None, Some("Version check exited with status "@ + text::debug_status(o.exit_code)))
        } else {
            ("warning"@, None, Some(o.stderr@))
        },
        Some(Err(e)) => ("warning"@, None, Some(e.message@)),
    }
}

pub fn resolved_health(
    spec: &ToolSpec,
    path: String,
    source: ToolSource,
    check: Option<Result<ProcessOutput, ApiError>>,
) -> (h: ToolHealth)
    ensures
        health_base(h, *spec),
        text::opt_view(h.path) == Some(path@),
        text::opt_view(h.source) == Some(source_name(source)),
        h.state@ == checked_state(check).0,
        text::opt_view(h.version) == checked_state(check).1,
        text::opt_view(h.hint) == checked_state(check).2,
{
    let (state, version, hint): (&str, Option<String>, Option<String>) = match check {
        None => ("ready", None, None),
        Some(Ok(o)) => {
            let ok = match o.exit_code {
                Some(c) => c == 0,
                None => false,
            };
            if ok && !o.timed_out {
                let out = text::chars_of(o.stdout.as_str());
                let report = if out.len() == 0 {
                    o.stderr
                } else {
                    o.stdout
                };
                ("ready", first_meaningful_line(report.as_str()), None)
            } else if o.timed_out {
                ("warning", None, Some(text::copy_str("Version check timed out")))
            } else {
                let err = text::chars_of(o.stderr.as_str());
                if err.len() == 0 {
                    (
                        "warning",
                        None,
                        Some(
                            text::concat_strs(
                                "Version check exited with status ",
                                text::debug_status_string(o.exit_code).as_str(),
                            ),
                        ),
                    )
                } else {
                    ("warning", None, Some(o.stderr))
                }
            }
        },
        Some(Err(e)) => ("warning", None, Some(e.message)),
    };
    ToolHealth {
        id: text::copy_str(spec.id),
        name: text::copy_str(spec.name),
        version,
        state: text::copy_str(state),
        path: Some(path),
        source: Some(text::copy_str(source.as_str())),
        purpose: text::copy_str(spec.purpose),
        required: spec.required,
        install_hint: text::copy_str(spec.install_hint),
        hint,
    }
}

} // verus!
