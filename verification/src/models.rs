//! Request and result records exchanged with the user interface.
use vstd::prelude::*;

verus! {

#[derive(Debug, Clone)]
pub struct ToolHealth {
    pub id: String,
    pub name: String,
    pub version: Option<String>,
    pub state: String,
    pub path: Option<String>,
    pub source: Option<String>,
    pub purpose: String,
    pub required: bool,
    pub install_hint: String,
    pub hint: Option<String>,
}

#[derive(Debug, Clone, Default)]
pub struct ConfigureToolchainRequest {
    pub adb_path: Option<String>,
    pub scrcpy_path: Option<String>,
    pub frida_path: Option<String>,
    pub ios_tools_path: Option<String>,
    pub managed_tools_path: Option<String>,
    pub clear: Option<bool>,
}

#[derive(Debug, Clone, Default, PartialEq, Eq)]
pub struct ToolchainConfiguration {
    pub adb_path: Option<String>,
    pub scrcpy_path: Option<String>,
    pub frida_path: Option<String>,
    pub ios_tools_path: Option<String>,
    pub managed_tools_path: Option<String>,
}

#[derive(Debug, Clone)]
pub struct AndroidDevice {
    pub serial: String,
    pub state: String,
    pub product: Option<String>,
    pub model: Option<String>,
    pub device: Option<String>,
    pub transport_id: Option<String>,
    pub connection: String,
}

#[derive(Debug, Clone)]
pub struct IosDevice {
    pub udid: String,
    pub name: Option<String>,
    pub product_type: Option<String>,
    pub product_version: Option<String>,
    pub build_version: Option<String>,
    pub connection: String,
}

#[derive(Debug, Clone)]
pub struct Device {
    pub id: String,
    pub name: String,
    pub platform: String,
    pub os_version: String,
    pub state: String,
    pub transport: String,
    pub address: Option<String>,
    pub model: Option<String>,
    pub architecture: Option<String>,
    pub rooted: Option<bool>,
    pub jailbroken: Option<bool>,
    pub product: Option<String>,
}

#[derive(Debug, Clone)]
pub struct IosDeviceInfo {
    pub udid: String,
    /// Property name and value pairs in the order the device reported them.
    pub properties: Vec<(String, String)>,
}

#[derive(Debug, Clone, Copy, PartialEq, Eq, Structural)]
pub enum IosHostDiagnosticKind {
    DeviceInfo,
    Pairing,
    Apps,
    Syslog,
}

#[derive(Debug, Clone)]
pub struct IosHostDiagnosticRequest {
    pub udid: String,
    pub kind: IosHostDiagnosticKind,
    pub network: bool,
    /// Execution window in milliseconds. Syslog intentionally runs until this
    /// bounded window expires; all other actions must finish within it.
    pub timeout_ms: Option<u64>,
}

#[derive(Debug, Clone)]
pub struct IosHostDiagnosticResult {
    pub success: bool,
    pub kind: IosHostDiagnosticKind,
    pub title: String,
    pub source: String,
    pub udid: String,
    pub network: bool,
    pub tool: String,
    pub output: String,
    pub stderr: Option<String>,
    pub exit_code: Option<i32>,
    pub timed_out: bool,
    pub truncated: bool,
    pub duration_ms: u64,
    pub warnings: Vec<String>,
}

#[derive(Debug, Clone, Copy, PartialEq, Eq, Structural)]
pub enum IosPortTunnelTransport {
    Iproxy,
    Ssh,
}

#[derive(Debug, Clone, Copy, PartialEq, Eq, Structural)]
pub enum IosPortTunnelDirection {
    HostToDevice,
    DeviceToHost,
}

#[derive(Debug, Clone)]
pub struct CreateIosPortTunnelRequest {
    pub transport: IosPortTunnelTransport,
    pub direction: IosPortTunnelDirection,
    pub udid: String,
    pub session_id: Option<String>,
    /// Host-side loopback port. Omit it for an automatically allocated port
    /// when creating a host-to-device tunnel.
    pub host_port: Option<u16>,
    pub device_port: u16,
}

#[derive(Debug, Clone)]
pub struct RemoveIosPortTunnelRequest {
    pub tunnel_id: String,
}

#[derive(Debug, Clone, PartialEq, Eq)]
pub struct IosPortTunnel {
    pub tunnel_id: String,
    pub transport: IosPortTunnelTransport,
    pub direction: IosPortTunnelDirection,
    pub udid: String,
    pub session_id: Option<String>,
    pub bind_address: String,
    pub host_port: u16,
    pub device_port: u16,
    pub pid: u32,
    pub active: bool,
}

#[derive(Debug, Clone)]
pub struct ScanEndpoint {
    /// IP or hostname only; the UI renders the port separately.
    pub address: String,
    pub port: u16,
    pub latency_ms: u64,
    pub state: String,
}

#[derive(Debug, Clone, Copy, PartialEq, Eq, Structural)]
pub enum PortDirection {
    Forward,
    Reverse,
}

#[derive(Debug, Clone)]
pub struct PortMappingRequest {
    pub serial: String,
    pub direction: PortDirection,
    pub local: String,
    pub remote: String,
    pub no_rebind: bool,
}

#[derive(Debug, Clone)]
pub struct RemovePortMappingRequest {
    pub serial: String,
    pub direction: PortDirection,
    /// Forward: host-side endpoint. Reverse: device-side endpoint.
    pub local: String,
}

#[derive(Debug, Clone)]
pub struct PortMapping {
    pub serial: String,
    pub direction: PortDirection,
    pub local: String,
    pub remote: String,
    /// The endpoint expected by remove_port_mapping.request.local.
    pub remove_endpoint: String,
}

#[derive(Debug, Clone)]
pub struct ScrcpyRequest {
    pub serial: String,
    pub max_size: Option<u32>,
    pub bit_rate: Option<String>,
    pub turn_screen_off: bool,
    pub stay_awake: bool,
    pub no_audio: bool,
}

#[derive(Debug, Clone)]
pub struct AndroidScreenStreamRequest {
    pub serial: String,
    pub max_size: Option<u16>,
    pub bit_rate: Option<u32>,
    pub max_fps: Option<u8>,
}

#[derive(Debug, Clone)]
pub struct AndroidScreenStreamResult {
    pub success: bool,
    pub message: String,
    pub session_id: String,
    pub stream_url: String,
    pub serial: String,
    pub codec: String,
    pub transport: String,
    pub max_size: u16,
    pub max_fps: u8,
    pub width: Option<u32>,
    pub height: Option<u32>,
}

#[derive(Debug, Clone)]
pub struct StopAndroidScreenStreamRequest {
    pub serial: String,
    pub session_id: String,
}

#[derive(Debug, Clone)]
pub struct AndroidScreenshotRequest {
    pub serial: String,
    /// When omitted, the screenshot is kept only long enough to populate the clipboard.
    pub destination_directory: Option<String>,
    pub copy_to_clipboard: bool,
}

#[derive(Debug, Clone)]
pub struct AndroidScreenshotResult {
    pub success: bool,
    pub message: String,
    pub saved_path: Option<String>,
    pub copied_to_clipboard: bool,
    pub size_bytes: u64,
    pub width: u32,
    pub height: u32,
    pub warnings: Vec<String>,
}

#[derive(Debug, Clone)]
pub struct AndroidScreenFrameResult {
    pub image_data_url: String,
    pub size_bytes: u64,
    pub width: u32,
    pub height: u32,
    pub captured_at_ms: u128,
}

#[derive(Debug, Clone)]
pub struct IosScreenTargetRequest {
    pub udid: String,
}

#[derive(Debug, Clone)]
pub struct IosScreenCapability {
    pub available: bool,
    pub transport: String,
    pub message: String,
}

#[derive(Debug, Clone)]
pub struct IosScreenshotRequest {
    pub udid: String,
    /// When omitted, the screenshot is kept only long enough to populate the clipboard.
    pub destination_directory: Option<String>,
    pub copy_to_clipboard: bool,
}

#[derive(Debug, Clone)]
pub struct StartAndroidScreenRecordingRequest {
    pub serial: String,
    pub destination_directory: String,
    pub bit_rate: Option<u32>,
    pub allow_root_fallback: bool,
}

#[derive(Debug, Clone)]
pub struct StopAndroidScreenRecordingRequest {
    pub serial: String,
    pub session_id: String,
}

#[derive(Debug, Clone)]
pub struct AndroidScreenRecordingSession {
    pub success: bool,
    pub message: String,
    pub session_id: String,
    pub serial: String,
    pub started_at_ms: u64,
    pub planned_saved_path: String,
    pub warnings: Vec<String>,
}

#[derive(Debug, Clone)]
pub struct AndroidScreenRecordingResult {
    pub success: bool,
    pub message: String,
    pub saved_path: String,
    pub size_bytes: u64,
    pub duration_seconds: u64,
    pub warnings: Vec<String>,
}

#[derive(Debug, Clone)]
pub struct RemoteFileEntry {
    pub name: String,
    pub path: String,
    pub kind: String,
    pub permissions: Option<String>,
    pub owner: Option<String>,
    pub group: Option<String>,
    pub size: Option<u64>,
    pub modified: Option<String>,
    pub link_target: Option<String>,
}

#[derive(Debug, Clone)]
pub struct PullFileRequest {
    pub serial: String,
    pub remote_path: String,
    pub local_path: String,
    pub overwrite: bool,
}

#[derive(Debug, Clone)]
pub struct PushFileRequest {
    pub serial: String,
    pub local_path: String,
    pub remote_path: String,
    pub overwrite: bool,
}

#[derive(Debug, Clone)]
pub struct DeleteRemoteRequest {
    pub serial: String,
    pub path: String,
    pub recursive: bool,
}

#[derive(Debug, Clone)]
pub struct AndroidProxyRequest {
    pub serial: String,
    pub host: String,
    pub port: u16,
}

#[derive(Debug, Clone)]
pub struct UploadFridaRequest {
    pub serial: String,
    pub platform: Option<MobilePlatform>,
    pub local_path: String,
    pub remote_path: Option<String>,
}

#[derive(Debug, Clone)]
pub struct StartFridaRequest {
    pub serial: String,
    pub platform: Option<MobilePlatform>,
    pub remote_path: Option<String>,
    pub listen_address: Option<String>,
    /// Deprecated compatibility alias. When supplied alone, it selects both ports.
    pub port: Option<u16>,
    pub device_port: Option<u16>,
    pub host_port: Option<u16>,
}

#[derive(Debug, Clone, Copy, PartialEq, Eq, Structural)]
pub enum MobilePlatform {
    Android,
    Ios,
}

#[derive(Debug, Clone)]
pub struct PackageIcon {
    pub archive_path: String,
    pub mime_type: String,
    pub data_base64: String,
    pub size_bytes: u64,
}

#[derive(Debug, Clone)]
pub struct AnalyzeMobilePackageRequest {
    pub path: String,
}

#[derive(Debug, Clone)]
pub struct MobilePackageAnalysis {
    pub platform: MobilePlatform,
    pub path: String,
    pub file_name: String,
    pub file_size: u64,
    pub md5: String,
    pub architectures: Vec<String>,
    pub source: String,
    pub fallback_used: bool,
    pub package_name: Option<String>,
    pub display_name: Option<String>,
    pub version_name: Option<String>,
    pub version_code: Option<String>,
    pub minimum_os_version: Option<String>,
    pub target_sdk_version: Option<String>,
    pub permissions: Vec<String>,
    /// Usage-description keys and texts, ordered by key.
    pub usage_descriptions: Vec<(String, String)>,
    pub icon: Option<PackageIcon>,
    pub warnings: Vec<String>,
}

#[derive(Debug, Clone)]
pub struct InstallMobilePackageRequest {
    pub serial: String,
    pub platform: MobilePlatform,
    pub path: String,
    pub replace: bool,
    pub grant_permissions: bool,
    pub downgrade: bool,
    pub allow_test_packages: bool,
}

#[derive(Debug, Clone)]
pub struct InstalledApp {
    pub package_name: String,
    pub apk_path: String,
    pub uid: Option<u32>,
    pub version_code: Option<String>,
    pub system: bool,
}

#[derive(Debug, Clone)]
pub struct AndroidAppTargetRequest {
    pub serial: String,
    pub package_name: String,
}

#[derive(Debug, Clone, Copy, PartialEq, Eq, Structural)]
pub enum AndroidAppAction {
    Launch,
    ForceStop,
    ClearData,
    Uninstall,
}

#[derive(Debug, Clone)]
pub struct AndroidAppOperationResult {
    pub success: bool,
    pub message: String,
    pub serial: String,
    pub package_name: String,
    pub action: AndroidAppAction,
}

#[derive(Debug, Clone)]
pub struct ExportAndroidPackageRequest {
    pub serial: String,
    pub package_name: String,
    pub destination: String,
    pub overwrite: bool,
}

#[derive(Debug, Clone)]
pub struct ExportedAndroidFile {
    pub kind: String,
    pub remote_path: String,
    pub local_path: String,
    pub size_bytes: Option<u64>,
}

#[derive(Debug, Clone)]
pub struct AndroidPackageExport {
    pub success: bool,
    pub message: String,
    pub package_name: String,
    pub destination: String,
    pub files: Vec<ExportedAndroidFile>,
    pub warnings: Vec<String>,
}

#[derive(Debug, Clone)]
pub struct FridaPortMapping {
    pub direction: String,
    pub local: String,
    pub remote: String,
}

#[derive(Debug, Clone)]
pub struct FridaServerResult {
    pub success: bool,
    pub message: String,
    pub platform: MobilePlatform,
    pub active: bool,
    pub remote_path: String,
    pub pid: Option<u32>,
    pub listen_address: Option<String>,
    pub device_port: Option<u16>,
    pub host_port: Option<u16>,
    pub mapping: Option<FridaPortMapping>,
    pub mapping_active: Option<bool>,
    pub stdout: Option<String>,
    pub stderr: Option<String>,
}

#[derive(Debug, Clone)]
pub enum IosSshTransport {
    Usb {
        udid: String,
        device_port: Option<u16>,
        host_port: Option<u16>,
    },
    Lan {
        host: String,
        port: Option<u16>,
    },
}

#[derive(Debug, Clone, Copy, Default, PartialEq, Eq, Structural)]
pub enum IosSshAuthMode {
    #[default]
    Password,
    PrivateKey,
}

/// A secret that is kept out of debug output.
#[derive(Clone)]
pub struct SecretString(String);

impl SecretString {
    pub fn new(value: String) -> (s: SecretString)
        ensures
            s.secret() == value@,
    {
        SecretString(value)
    }

    pub closed spec fn secret(&self) -> Seq<char> {
        self.0@
    }

    pub fn expose_secret(&self) -> (r: &str)
        ensures
            r@ == self.secret(),
    {
        self.0.as_str()
    }
}

#[derive(Clone)]
pub struct StartIosSshSessionRequest {
    pub transport: IosSshTransport,
    pub auth_mode: IosSshAuthMode,
    pub username: Option<String>,
    pub password: Option<SecretString>,
    pub private_key_path: Option<String>,
    pub allowed_roots: Vec<String>,
}

#[derive(Debug, Clone)]
pub struct IosSshTunnelStatus {
    pub active: bool,
    pub pid: u32,
    pub udid: String,
    pub bind_address: String,
    pub host_port: u16,
    pub device_port: u16,
}

#[derive(Debug, Clone)]
pub struct IosSshSession {
    pub session_id: String,
    pub mode: String,
    pub connected: bool,
    /// This means only that the user-supplied SSH credentials were accepted.
    pub jailbreak_confirmed: bool,
    pub ssh_host: String,
    pub ssh_port: u16,
    pub device_port: Option<u16>,
    pub username: String,
    pub auth_mode: IosSshAuthMode,
    pub allowed_roots: Vec<String>,
    pub server_system: Option<String>,
    pub remote_uid: Option<u32>,
    pub tunnel: Option<IosSshTunnelStatus>,
}

#[derive(Debug, Clone)]
pub struct IosSshConnectionResult {
    pub success: bool,
    pub message: String,
    pub connected: bool,
    /// This means only that the user-supplied SSH credentials were accepted.
    pub jailbreak_confirmed: bool,
    pub auth_mode: IosSshAuthMode,
    pub server_system: Option<String>,
    pub remote_uid: Option<u32>,
    pub tunnel_active: Option<bool>,
}

#[derive(Debug, Clone)]
pub struct IosSshPathRequest {
    pub session_id: String,
    pub path: String,
}

#[derive(Debug, Clone)]
pub struct UploadIosSshFileRequest {
    pub session_id: String,
    pub local_path: String,
    pub remote_path: String,
    pub overwrite: bool,
}

#[derive(Debug, Clone)]
pub struct DownloadIosSshFileRequest {
    pub session_id: String,
    pub remote_path: String,
    pub local_path: String,
    pub overwrite: bool,
}

#[derive(Debug, Clone)]
pub struct DeleteIosSshRequest {
    pub session_id: String,
    pub path: String,
    pub recursive: bool,
}

#[derive(Debug, Clone)]
pub struct UploadIosFridaServerRequest {
    pub session_id: String,
    pub local_path: String,
}

#[derive(Debug, Clone)]
pub struct StartIosFridaServerRequest {
    pub session_id: String,
    pub device_port: Option<u16>,
    pub host_port: Option<u16>,
}

#[derive(Debug, Clone)]
pub struct StopIosFridaServerRequest {
    pub session_id: String,
}

#[derive(Debug, Clone)]
pub struct IosFridaServerResult {
    pub success: bool,
    pub message: String,
    pub session_id: String,
    pub active: bool,
    pub remote_path: String,
    pub pid: Option<u32>,
    pub listen_address: Option<String>,
    pub device_port: Option<u16>,
    pub host_port: Option<u16>,
    pub tunnel_pid: Option<u32>,
    pub tunnel_active: Option<bool>,
}

#[derive(Debug, Clone, Copy, PartialEq, Eq, Structural)]
pub enum IosPackageInstallerId {
    Appinst,
    Ipainstaller,
}

pub open spec fn installer_id_name(id: IosPackageInstallerId) -> Seq<char> {
    match id {
        IosPackageInstallerId::Appinst => "appinst"@,
        IosPackageInstallerId::Ipainstaller => "ipainstaller"@,
    }
}

impl IosPackageInstallerId {
    pub fn as_str(self) -> (r: &'static str)
        ensures
            r@ == installer_id_name(self),
    {
        match self {
            IosPackageInstallerId::Appinst => "appinst",
            IosPackageInstallerId::Ipainstaller => "ipainstaller",
        }
    }
}

#[derive(Debug, Clone)]
pub struct IosPackageInstaller {
    pub id: IosPackageInstallerId,
    pub name: String,
    pub path: String,
}

#[derive(Debug, Clone)]
pub struct ProbeIosAppCapabilitiesRequest {
    pub session_id: String,
}

#[derive(Debug, Clone)]
pub struct IosAppCapabilities {
    pub session_id: String,
    pub root_session: bool,
    pub installers: Vec<IosPackageInstaller>,
    pub preferred_installer: Option<IosPackageInstaller>,
    pub listing_available: bool,
    pub export_available: bool,
    pub plutil_path: Option<String>,
    pub plutil_mode: Option<String>,
    pub base64_path: Option<String>,
    pub tar_path: Option<String>,
    pub warnings: Vec<String>,
}

#[derive(Debug, Clone)]
pub struct InstallIosPackageSshRequest {
    pub session_id: String,
    pub path: String,
    pub installer_id: Option<IosPackageInstallerId>,
}

#[derive(Debug, Clone)]
pub struct IosPackageInstallResult {
    pub success: bool,
    pub message: String,
    pub session_id: String,
    pub installer: IosPackageInstaller,
    pub package_name: Option<String>,
    pub remote_temporary_path: String,
    pub temporary_file_cleaned: bool,
    pub stdout: Option<String>,
    pub stderr: Option<String>,
    pub warnings: Vec<String>,
}

#[derive(Debug, Clone, Copy, Default, PartialEq, Eq, Structural)]
pub enum IosInstalledAppScope {
    #[default]
    All,
    User,
    System,
}

#[derive(Debug, Clone)]
pub struct ListIosInstalledAppsRequest {
    pub session_id: String,
    pub scope: IosInstalledAppScope,
    pub limit: Option<u16>,
}

#[derive(Debug, Clone)]
pub struct IosInstalledApp {
    pub bundle_id: String,
    pub display_name: String,
    pub version_name: Option<String>,
    pub build_version: Option<String>,
    pub app_path: String,
    pub system: bool,
}

#[derive(Debug, Clone)]
pub struct ExportIosAppBundleRequest {
    pub session_id: String,
    pub bundle_id: String,
    pub app_path: String,
    pub destination: String,
    pub overwrite: bool,
}

#[derive(Debug, Clone)]
pub struct IosAppExportResult {
    pub success: bool,
    pub message: String,
    pub session_id: String,
    pub bundle_id: String,
    pub app_path: String,
    pub local_path: String,
    pub format: String,
    pub size_bytes: u64,
    pub installable: bool,
    pub encryption_status: String,
    pub warnings: Vec<String>,
}

#[derive(Debug, Clone, Copy, PartialEq, Eq, Structural)]
pub enum IosDiagnosticKind {
    Overview,
    Processes,
    Tools,
    Syslog,
}

#[derive(Debug, Clone)]
pub struct IosDiagnosticRequest {
    pub session_id: String,
    pub kind: IosDiagnosticKind,
    pub syslog_lines: Option<u16>,
}

#[derive(Debug, Clone, PartialEq, Eq)]
pub struct IosDiagnosticToolStatus {
    pub id: String,
    pub name: String,
    pub available: bool,
    pub path: Option<String>,
    pub version: Option<String>,
    pub running: Option<bool>,
    pub purpose: String,
}

#[derive(Debug, Clone)]
pub struct IosDiagnosticResult {
    pub success: bool,
    pub kind: IosDiagnosticKind,
    pub title: String,
    pub output: String,
    pub truncated: bool,
    pub source: String,
    pub tools: Vec<IosDiagnosticToolStatus>,
    pub warnings: Vec<String>,
}

#[derive(Debug, Clone, Copy, PartialEq, Eq, Structural)]
pub enum IosDeviceAction {
    Respring,
    Reboot,
}

#[derive(Debug, Clone)]
pub struct PrepareIosDeviceActionRequest {
    pub session_id: String,
    pub action: IosDeviceAction,
    pub expected_ssh_host: String,
    pub expected_ssh_port: u16,
    pub expected_username: String,
    pub expected_server_system: Option<String>,
}

#[derive(Debug, Clone, PartialEq, Eq)]
pub struct IosDeviceActionTarget {
    pub ssh_host: String,
    pub ssh_port: u16,
    pub username: String,
    pub server_system: Option<String>,
    pub host_key_identity: String,
}

#[derive(Debug, Clone)]
pub struct IosDeviceActionConfirmation {
    pub success: bool,
    pub confirmation_id: String,
    pub session_id: String,
    pub action: IosDeviceAction,
    pub target: IosDeviceActionTarget,
    pub expires_in_seconds: u64,
}

#[derive(Debug, Clone)]
pub struct IosDeviceActionRequest {
    pub confirmation_id: String,
    pub session_id: String,
    pub action: IosDeviceAction,
    pub expected_ssh_host: String,
    pub expected_ssh_port: u16,
    pub expected_username: String,
    pub expected_server_system: Option<String>,
    pub expected_host_key_identity: String,
}

#[derive(Debug, Clone)]
pub struct IosDeviceActionResult {
    pub success: bool,
    pub action: IosDeviceAction,
    pub message: String,
    pub accepted: bool,
}

} // verus!
