//! Managed iOS port tunnels: request validation, the arguments of the three
//! tunnel programs, the choice of USB provider, tunnel identifiers and the
//! records reported for each tunnel.
use crate::error::{is_error, ApiError, ErrorDetails, ProcessOutput};
use crate::scrcpy;
use crate::ios_ssh;
use crate::models::{
    CreateIosPortTunnelRequest, IosPortTunnel, IosPortTunnelDirection, IosPortTunnelTransport,
};
use crate::text;
use crate::toolchain::ToolSource;
use crate::validation;
use vstd::prelude::*;

verus! {

/// The address every managed tunnel listens on.
pub const LOOPBACK: &'static str = "127.0.0.1";

/// The most managed tunnels kept at once.
pub const MAX_TUNNELS: usize = 64;

/// The only go-ios build trusted to forward ports.
pub const PATCHED_GO_IOS_VERSION: &'static str = "1.3.2-mobius.1";

/// The program that carries a USB tunnel.
#[derive(Debug, Clone, Copy, PartialEq, Eq, Structural)]
pub enum UsbTunnelProvider {
    BundledGoIos,
    Iproxy,
}

// ---------------------------------------------------------------------------
// Requests
// ---------------------------------------------------------------------------

/// The outcome of validating a tunnel request, checked in this order.
pub open spec fn request_check(r: CreateIosPortTunnelRequest) -> Result<(), (Seq<char>, Seq<char>)> {
    if r.device_port == 0 {
        Err(("invalid_ios_tunnel_port"@, "The device port must be between 1 and 65535"@))
    } else if r.host_port == Some(0u16) {
        Err(("invalid_ios_tunnel_port"@, "The host port must be between 1 and 65535"@))
    } else if r.direction == IosPortTunnelDirection::DeviceToHost && r.host_port is None {
        Err(
            (
                "ios_tunnel_host_port_required"@,
                "A device-to-host tunnel requires the existing host service port"@,
            ),
        )
    } else if validation::serial_check(r.udid@) is Err {
        validation::serial_check(r.udid@)
    } else if (match r.session_id {
        Some(s) => !ios_ssh::session_id_ok(s@),
        None => false,
    }) {
        Err(("invalid_ios_ssh_session_id"@, "Invalid iOS SSH session identifier"@))
    } else if r.transport == IosPortTunnelTransport::Iproxy && r.direction
        != IosPortTunnelDirection::HostToDevice {
        Err(("unsupported_iproxy_direction"@, "iproxy supports only host-to-device USB forwarding"@))
    } else if r.transport == IosPortTunnelTransport::Ssh && r.session_id is None {
        Err(("ios_tunnel_session_required"@, "SSH port tunnels require an active iOS SSH session"@))
    } else {
        Ok(())
    }
}

/// `r` is `Ok` when `check` is, and otherwise the error it describes.
pub open spec fn follows(r: Result<(), ApiError>, check: Result<(), (Seq<char>, Seq<char>)>) -> bool {
    match check {
        Ok(()) => r is Ok,
        Err((code, message)) => r matches Err(e) && is_error(e, code, message),
    }
}

/// Validates a tunnel request before any process is started.
pub fn validate_request(request: &CreateIosPortTunnelRequest) -> (r: Result<(), ApiError>)
    ensures
        follows(r, request_check(*request)),
{
    if request.device_port == 0 {
        return Err(
            ApiError::new("invalid_ios_tunnel_port", "The device port must be between 1 and 65535"),
        );
    }
    if request.host_port == Some(0u16) {
        return Err(
            ApiError::new("invalid_ios_tunnel_port", "The host port must be between 1 and 65535"),
        );
    }
    if request.direction == IosPortTunnelDirection::DeviceToHost && request.host_port.is_none() {
        return Err(
            ApiError::new(
                "ios_tunnel_host_port_required",
                "A device-to-host tunnel requires the existing host service port",
            ),
        );
    }
    match validation::serial(request.udid.as_str()) {
        Ok(_) => {},
        Err(e) => {
            return Err(e);
        },
    }
    match &request.session_id {
        Some(s) => match ios_ssh::validate_session_id(s.as_str()) {
            Ok(_) => {},
            Err(e) => {
                return Err(e);
            },
        },
        None => {},
    }
    match request.transport {
        IosPortTunnelTransport::Iproxy => {
            if request.direction != IosPortTunnelDirection::HostToDevice {
                return Err(
                    ApiError::new(
                        "unsupported_iproxy_direction",
                        "iproxy supports only host-to-device USB forwarding",
                    ),
                );
            }
        },
        IosPortTunnelTransport::Ssh => {
            if request.session_id.is_none() {
                return Err(
                    ApiError::new(
                        "ios_tunnel_session_required",
                        "SSH port tunnels require an active iOS SSH session",
                    ),
                );
            }
        },
    }
    Ok(())
}

/// The host port of a tunnel: a device-to-host tunnel reuses the host
/// service port of its request; a host-to-device tunnel gets the loopback
/// port that was reserved for it.
pub fn tunnel_host_port(request: &CreateIosPortTunnelRequest, reserved: u16) -> (r: u16)
    requires
        request_check(*request) is Ok,
    ensures
        request.direction == IosPortTunnelDirection::DeviceToHost ==> Some(r) == request.host_port,
        request.direction == IosPortTunnelDirection::HostToDevice ==> r == reserved,
{
    match request.direction {
        IosPortTunnelDirection::HostToDevice => reserved,
        IosPortTunnelDirection::DeviceToHost => match request.host_port {
            Some(p) => p,
            None => reserved,
        },
    }
}

// ---------------------------------------------------------------------------
// Program arguments
// ---------------------------------------------------------------------------

pub open spec fn go_ios_args(udid: Seq<char>, host_port: u16, device_port: u16) -> Seq<Seq<char>> {
    seq![
        "forward"@,
        text::decimal(host_port as nat),
        text::decimal(device_port as nat),
        "--udid="@ + udid,
    ]
}

/// `ios forward HOST DEVICE --udid=UDID`.
pub fn go_ios_forward_args(udid: &str, host_port: u16, device_port: u16) -> (r: Vec<String>)
    ensures
        text::string_views(r@) == go_ios_args(udid@, host_port, device_port),
{
    let mut args: Vec<String> = Vec::new();
    text::push_str(&mut args, "forward");
    text::push_string(&mut args, text::decimal_string(host_port as u64));
    text::push_string(&mut args, text::decimal_string(device_port as u64));
    text::push_string(&mut args, text::concat_strs("--udid=", udid));
    assert(text::string_views(args@) =~= go_ios_args(udid@, host_port, device_port));
    args
}

pub open spec fn iproxy_arguments(udid: Seq<char>, host_port: u16, device_port: u16) -> Seq<
    Seq<char>,
> {
    seq![
        "-u"@,
        udid,
        "-l"@,
        "-s"@,
        "127.0.0.1"@,
        text::decimal(host_port as nat) + seq![':'] + text::decimal(device_port as nat),
    ]
}

/// `iproxy -u UDID -l -s 127.0.0.1 HOST:DEVICE`: the listener is bound to the
/// host loopback address only.
pub fn iproxy_args(udid: &str, host_port: u16, device_port: u16) -> (r: Vec<String>)
    ensures
        text::string_views(r@) == iproxy_arguments(udid@, host_port, device_port),
{
    let mut args: Vec<String> = Vec::new();
    text::push_str(&mut args, "-u");
    text::push_str(&mut args, udid);
    text::push_str(&mut args, "-l");
    text::push_str(&mut args, "-s");
    text::push_str(&mut args, "127.0.0.1");
    let mut spec = text::decimal_exec(host_port as u64);
    text::append_str(&mut spec, ":");
    text::append(&mut spec, &text::decimal_exec(device_port as u64));
    proof {
        reveal_strlit(":");
    }
    assert(spec@ =~= text::decimal(host_port as nat) + seq![':'] + text::decimal(device_port as nat));
    text::push_string(&mut args, text::string_of(&spec));
    proof {
        reveal_strlit("127.0.0.1");
    }
    assert(text::string_views(args@) =~= iproxy_arguments(udid@, host_port, device_port));
    args
}

/// The forwarding rule of an SSH tunnel: a local forward from the host
/// loopback port to the device loopback port, or a remote forward back.
pub open spec fn forward_spec(direction: IosPortTunnelDirection, host_port: u16, device_port: u16) -> Seq<
    char,
> {
    match direction {
        IosPortTunnelDirection::HostToDevice => "127.0.0.1:"@ + text::decimal(host_port as nat)
            + ":127.0.0.1:"@ + text::decimal(device_port as nat),
        IosPortTunnelDirection::DeviceToHost => "127.0.0.1:"@ + text::decimal(device_port as nat)
            + ":127.0.0.1:"@ + text::decimal(host_port as nat),
    }
}

pub open spec fn forward_flag(direction: IosPortTunnelDirection) -> Seq<char> {
    match direction {
        IosPortTunnelDirection::HostToDevice => "-L"@,
        IosPortTunnelDirection::DeviceToHost => "-R"@,
    }
}

pub open spec fn ssh_tunnel_arguments(
    direction: IosPortTunnelDirection,
    host_port: u16,
    device_port: u16,
) -> Seq<Seq<char>> {
    seq![
        "-N"@,
        "-o"@,
        "ExitOnForwardFailure=yes"@,
        "-o"@,
        "GatewayPorts=no"@,
        forward_flag(direction),
        forward_spec(direction, host_port, device_port),
    ]
}

/// The SSH options of a tunnel: no remote command, fail when the forward
/// cannot be set up, and never expose a forwarded port beyond loopback.
pub fn ssh_tunnel_args(direction: IosPortTunnelDirection, host_port: u16, device_port: u16) -> (r: Vec<
    String,
>)
    ensures
        text::string_views(r@) == ssh_tunnel_arguments(direction, host_port, device_port),
{
    let (first, second) = match direction {
        IosPortTunnelDirection::HostToDevice => (host_port, device_port),
        IosPortTunnelDirection::DeviceToHost => (device_port, host_port),
    };
    let mut spec = text::chars_of("127.0.0.1:");
    text::append(&mut spec, &text::decimal_exec(first as u64));
    text::append_str(&mut spec, ":127.0.0.1:");
    text::append(&mut spec, &text::decimal_exec(second as u64));
    let mut args: Vec<String> = Vec::new();
    text::push_str(&mut args, "-N");
    text::push_str(&mut args, "-o");
    text::push_str(&mut args, "ExitOnForwardFailure=yes");
    text::push_str(&mut args, "-o");
    text::push_str(&mut args, "GatewayPorts=no");
    match direction {
        IosPortTunnelDirection::HostToDevice => text::push_str(&mut args, "-L"),
        IosPortTunnelDirection::DeviceToHost => text::push_str(&mut args, "-R"),
    }
    text::push_string(&mut args, text::string_of(&spec));
    assert(text::string_views(args@) =~= ssh_tunnel_arguments(direction, host_port, device_port));
    args
}

/// The whole argument list of an SSH tunnel: the session's connection
/// options, the tunnel options, then the target.
pub fn ssh_tunnel_command_args(
    connection: &ios_ssh::IosSshConnection,
    direction: IosPortTunnelDirection,
    host_port: u16,
    device_port: u16,
) -> (r: Vec<String>)
    ensures
        text::string_views(r@) == ios_ssh::ssh_args(*connection) + ssh_tunnel_arguments(
            direction,
            host_port,
            device_port,
        ) + seq![connection.username@ + seq!['@'] + connection.ssh_host@],
{
    let mut args = ios_ssh::ssh_base_args(connection);
    let ghost base = text::string_views(args@);
    let tunnel = ssh_tunnel_args(direction, host_port, device_port);
    let ghost t = text::string_views(tunnel@);
    let mut i: usize = 0;
    while i < tunnel.len()
        invariant
            i <= tunnel@.len(),
            t == text::string_views(tunnel@),
            text::string_views(args@) == base + t.take(i as int),
        decreases tunnel@.len() - i,
    {
        text::push_str(&mut args, tunnel[i].as_str());
        assert(t.take(i + 1) =~= t.take(i as int).push(t[i as int]));
        assert(base + t.take(i + 1) =~= (base + t.take(i as int)).push(t[i as int]));
        i = i + 1;
    }
    assert(t.take(t.len() as int) =~= t);
    text::push_string(&mut args, ios_ssh::ssh_target(connection));
    args
}

// ---------------------------------------------------------------------------
// The USB provider
// ---------------------------------------------------------------------------

/// What `serde_json` finds under `key` in the JSON document `text`, when the
/// document is an object and that member is a string.
pub uninterp spec fn json_string_member(text: Seq<char>, key: Seq<char>) -> Option<Seq<char>>;

/// `serde_json::from_str::<Value>` on `text`, then the member `key` as a
/// string. The result is named, not described: it is what serde_json's
/// parser makes of the text.
#[verifier::external_body]
fn json_string_field(text: &str, key: &str) -> (r: Option<String>)
    ensures
        text::opt_view(r) == json_string_member(text@, key@),
{
    match serde_json::from_str::<serde_json::Value>(text) {
        Ok(value) => match value.get(key) {
            Some(member) => member.as_str().map(str::to_string),
            None => None,
        },
        Err(_) => None,
    }
}

/// Whether a version report proves the bundled go-ios build: it must come
/// from the bundled tool, finish in time with exit status 0 and untruncated
/// output, and report exactly the patched version.
pub open spec fn version_accepted(source: ToolSource, output: ProcessOutput, version: Option<Seq<char>>) -> bool {
    &&& source == ToolSource::Bundled
    &&& !output.timed_out
    &&& !output.truncated
    &&& output.exit_code == Some(0i32)
    &&& version == Some("1.3.2-mobius.1"@)
}

/// Decides on a version report, given the `version` member that the JSON
/// output held (if any).
pub fn go_ios_version_accepted(source: ToolSource, output: &ProcessOutput, version: Option<&str>) -> (r:
    bool)
    ensures
        r == version_accepted(
            source,
            *output,
            match version {
                Some(v) => Some(v@),
                None => None,
            },
        ),
{
    let status_ok = match output.exit_code {
        Some(c) => c == 0,
        None => false,
    };
    let version_ok = match version {
        Some(v) => text::eq_str_str(v, PATCHED_GO_IOS_VERSION),
        None => false,
    };
    proof {
        reveal_strlit("1.3.2-mobius.1");
    }
    source == ToolSource::Bundled && !output.timed_out && !output.truncated && status_ok
        && version_ok
}

/// Whether the output of `ios version` proves the patched bundled build: the
/// trimmed standard output must be a JSON object whose `version` member is
/// that build's version.
pub fn verified_go_ios_version(source: ToolSource, output: &ProcessOutput) -> (r: bool)
    ensures
        r == version_accepted(
            source,
            *output,
            json_string_member(text::trim(output.stdout@), "version"@),
        ),
{
    let cs = text::chars_of(output.stdout.as_str());
    let trimmed = text::string_of(&text::trim_exec(&cs));
    let version = json_string_field(trimmed.as_str(), "version");
    match &version {
        Some(v) => go_ios_version_accepted(source, output, Some(v.as_str())),
        None => go_ios_version_accepted(source, output, None),
    }
}

/// The bundled go-ios build carries USB tunnels when its version report
/// proves it; iproxy does otherwise.
pub fn select_usb_tunnel_provider(source: ToolSource, output: &ProcessOutput) -> (r: UsbTunnelProvider)
    ensures
        r == (if version_accepted(
            source,
            *output,
            json_string_member(text::trim(output.stdout@), "version"@),
        ) {
            UsbTunnelProvider::BundledGoIos
        } else {
            UsbTunnelProvider::Iproxy
        }),
{
    if verified_go_ios_version(source, output) {
        UsbTunnelProvider::BundledGoIos
    } else {
        UsbTunnelProvider::Iproxy
    }
}


/// The error when both USB tunnel programs failed. Without a go-ios attempt
/// the iproxy error is reported as it is.
pub fn usb_providers_failed(primary: Option<ApiError>, fallback: ApiError) -> (r: ApiError)
    ensures
        primary is None ==> r == fallback,
        primary matches Some(p) ==> {
            &&& r.code@ == "ios_usb_tunnel_providers_failed"@
            &&& r.message@ == "The bundled go-ios tunnel and iproxy fallback both failed: "@
                + p.message@ + "; "@ + fallback.message@
            &&& r.details matches Some(ErrorDetails::UsbProviders { go_ios_code, go_ios_message, iproxy_code, iproxy_message })
            &&& go_ios_code@ == p.code@ && go_ios_message@ == p.message@
            &&& iproxy_code@ == fallback.code@ && iproxy_message@ == fallback.message@
        },
{
    match primary {
        None => fallback,
        Some(p) => {
            let mut m = text::chars_of("The bundled go-ios tunnel and iproxy fallback both failed: ");
            text::append_str(&mut m, p.message.as_str());
            text::append_str(&mut m, "; ");
            text::append_str(&mut m, fallback.message.as_str());
            let details = ErrorDetails::UsbProviders {
                go_ios_code: p.code,
                go_ios_message: p.message,
                iproxy_code: fallback.code,
                iproxy_message: fallback.message,
            };
            ApiError::with_message("ios_usb_tunnel_providers_failed", text::string_of(&m)).with_details(
                details,
            )
        },
    }
}

// ---------------------------------------------------------------------------
// Tunnel identifiers
// ---------------------------------------------------------------------------

/// A tunnel identifier: `ios-tunnel-` and 32 ASCII hexadecimal digits.
pub open spec fn tunnel_id_ok(s: Seq<char>) -> bool {
    match text::strip_prefix(s, "ios-tunnel-"@) {
        Some(suffix) => scrcpy::session_id_ok(suffix),
        None => false,
    }
}

/// The identifier made from random bytes.
pub open spec fn tunnel_id_of(random: Seq<u8>) -> Seq<char> {
    "ios-tunnel-"@ + text::hex(random)
}

/// A new tunnel identifier from 16 random bytes.
pub fn new_tunnel_id() -> (r: Result<String, ApiError>)
    ensures
        r matches Ok(s) ==> exists|b: Seq<u8>| b.len() == 16 && s@ == tunnel_id_of(b),
        r matches Err(e) ==> is_error(
            e,
            "ios_tunnel_id_unavailable"@,
            "Unable to create a secure iOS tunnel identifier"@,
        ),
{
    match crate::encoding::random_bytes(16) {
        Ok(b) => {
            let s = text::concat_strs("ios-tunnel-", text::hex_bytes(&b).as_str());
            assert(b@.len() == 16 && s@ == tunnel_id_of(b@));
            Ok(s)
        },
        Err(_) => Err(
            ApiError::new("ios_tunnel_id_unavailable", "Unable to create a secure iOS tunnel identifier"),
        ),
    }
}

/// Every identifier that `new_tunnel_id` makes passes `validate_tunnel_id`.
pub proof fn lemma_new_tunnel_ids_are_valid(random: Seq<u8>)
    requires
        random.len() == 16,
    ensures
        tunnel_id_ok(tunnel_id_of(random)),
{
    let h = text::hex(random);
    let s = tunnel_id_of(random);
    text::lemma_hex_shape(random);
    reveal_strlit("ios-tunnel-");
    assert(text::starts_with(s, "ios-tunnel-"@)) by {
        assert(s.take(11) =~= "ios-tunnel-"@);
    }
    assert(s.skip(11) =~= h);
    assert forall|i: int| 0 <= i < h.len() implies scrcpy::is_hex_digit(#[trigger] h[i]) by {
        assert(text::is_lower_hex(h[i]));
    }
}

/// Checks the identifier of a tunnel to remove.
pub fn validate_tunnel_id(value: &str) -> (r: Result<&str, ApiError>)
    ensures
        tunnel_id_ok(value@) ==> r == Ok::<&str, ApiError>(value),
        !tunnel_id_ok(value@) ==> (r matches Err(e) && is_error(
            e,
            "invalid_ios_tunnel_id"@,
            "Invalid managed iOS tunnel identifier"@,
        )),
{
    let cs = text::chars_of(value);
    match text::strip_prefix_str(&cs, "ios-tunnel-") {
        None => Err(ApiError::new("invalid_ios_tunnel_id", "Invalid managed iOS tunnel identifier")),
        Some(suffix) => match scrcpy::check_session_id(text::string_of(&suffix).as_str()) {
            Ok(()) => Ok(value),
            Err(_) => Err(
                ApiError::new("invalid_ios_tunnel_id", "Invalid managed iOS tunnel identifier"),
            ),
        },
    }
}

/// Whether a new tunnel may be registered: at most 64 are kept, and a new
/// identifier must not collide with a kept one.
pub fn check_tunnel_slot(active: usize, id_taken: bool) -> (r: Result<(), ApiError>)
    ensures
        active < MAX_TUNNELS && !id_taken ==> r is Ok,
        active >= MAX_TUNNELS ==> (r matches Err(e) && is_error(
            e,
            "ios_tunnel_limit"@,
            "At most 64 managed iOS port tunnels may be active"@,
        )),
        active < MAX_TUNNELS && id_taken ==> (r matches Err(e) && is_error(
            e,
            "ios_tunnel_id_collision"@,
            "Unable to allocate a unique iOS tunnel identifier"@,
        )),
{
    if active >= MAX_TUNNELS {
        return Err(
            ApiError::new("ios_tunnel_limit", "At most 64 managed iOS port tunnels may be active"),
        );
    }
    if id_taken {
        return Err(
            ApiError::new("ios_tunnel_id_collision", "Unable to allocate a unique iOS tunnel identifier"),
        );
    }
    Ok(())
}

/// The error for removing a tunnel that is not kept.
pub fn tunnel_not_found() -> (e: ApiError)
    ensures
        is_error(e, "ios_tunnel_not_found"@, "The managed iOS port tunnel is not active"@),
{
    ApiError::new("ios_tunnel_not_found", "The managed iOS port tunnel is not active")
}

// ---------------------------------------------------------------------------
// Kept tunnels and their records
// ---------------------------------------------------------------------------

/// What is kept of a running tunnel besides its process.
#[derive(Debug, Clone)]
pub struct ManagedTunnel {
    pub tunnel_id: String,
    pub transport: IosPortTunnelTransport,
    pub direction: IosPortTunnelDirection,
    pub udid: String,
    pub session_id: Option<String>,
    pub host_port: u16,
    pub device_port: u16,
    pub pid: u32,
}

/// The tunnel kept for an accepted request.
pub fn managed_tunnel(
    tunnel_id: String,
    request: &CreateIosPortTunnelRequest,
    host_port: u16,
    pid: u32,
) -> (r: ManagedTunnel)
    ensures
        r.tunnel_id@ == tunnel_id@,
        r.transport == request.transport,
        r.direction == request.direction,
        r.udid@ == request.udid@,
        text::opt_view(r.session_id) == text::opt_view(request.session_id),
        r.host_port == host_port,
        r.device_port == request.device_port,
        r.pid == pid,
{
    ManagedTunnel {
        tunnel_id,
        transport: request.transport,
        direction: request.direction,
        udid: text::copy_string(&request.udid),
        session_id: copy_opt(&request.session_id),
        host_port,
        device_port: request.device_port,
        pid,
    }
}

fn copy_opt(o: &Option<String>) -> (r: Option<String>)
    ensures
        text::opt_view(r) == text::opt_view(*o),
{
    match o {
        Some(s) => Some(text::copy_string(s)),
        None => None,
    }
}

/// The record reported for a tunnel: always bound to `127.0.0.1`.
pub fn tunnel_result(managed: &ManagedTunnel, active: bool) -> (r: IosPortTunnel)
    ensures
        r.tunnel_id@ == managed.tunnel_id@,
        r.transport == managed.transport,
        r.direction == managed.direction,
        r.udid@ == managed.udid@,
        text::opt_view(r.session_id) == text::opt_view(managed.session_id),
        r.bind_address@ == "127.0.0.1"@,
        r.host_port == managed.host_port,
        r.device_port == managed.device_port,
        r.pid == managed.pid,
        r.active == active,
{
    IosPortTunnel {
        tunnel_id: text::copy_string(&managed.tunnel_id),
        transport: managed.transport,
        direction: managed.direction,
        udid: text::copy_string(&managed.udid),
        session_id: copy_opt(&managed.session_id),
        bind_address: text::copy_str("127.0.0.1"),
        host_port: managed.host_port,
        device_port: managed.device_port,
        pid: managed.pid,
        active,
    }
}

/// The identifiers of the tunnels bound to a session, in the given order.
pub open spec fn session_tunnels(tunnels: Seq<ManagedTunnel>, session_id: Seq<char>) -> Seq<Seq<char>>
    decreases tunnels.len(),
{
    if tunnels.len() == 0 {
        Seq::empty()
    } else {
        let rest = session_tunnels(tunnels.drop_last(), session_id);
        if text::opt_view(tunnels.last().session_id) == Some(session_id) {
            rest.push(tunnels.last().tunnel_id@)
        } else {
            rest
        }
    }
}

/// The tunnels to stop when a session ends.
pub fn tunnels_of_session(tunnels: &[ManagedTunnel], session_id: &str) -> (r: Vec<String>)
    ensures
        text::string_views(r@) == session_tunnels(tunnels@, session_id@),
{
    let mut out: Vec<String> = Vec::new();
    let mut i: usize = 0;
    while i < tunnels.len()
        invariant
            i <= tunnels@.len(),
            text::string_views(out@) == session_tunnels(tunnels@.take(i as int), session_id@),
        decreases tunnels@.len() - i,
    {
        assert(tunnels@.take(i + 1).drop_last() =~= tunnels@.take(i as int));
        let bound = match &tunnels[i].session_id {
            Some(s) => text::eq_str_str(s.as_str(), session_id),
            None => false,
        };
        if bound {
            text::push_string(&mut out, text::copy_string(&tunnels[i].tunnel_id));
        }
        i = i + 1;
    }
    assert(tunnels@.take(tunnels@.len() as int) =~= tunnels@);
    out
}

/// The records in increasing order of identifier.
pub open spec fn ordered_by_id(v: Seq<IosPortTunnel>) -> bool {
    forall|i: int, j: int| 0 <= i < j < v.len() ==> !text::lex_lt(#[trigger] v[j].tunnel_id@, #[trigger] v[i].tunnel_id@)
}

/// Orders tunnel records by identifier, as the listing reports them.
pub fn order_tunnels(tunnels: Vec<IosPortTunnel>) -> (r: Vec<IosPortTunnel>)
    ensures
        ordered_by_id(r@),
        r@.to_multiset() =~= tunnels@.to_multiset(),
{
    broadcast use vstd::seq_lib::group_to_multiset_ensures;

    let ghost all = tunnels@;
    let mut rest = tunnels;
    let mut out: Vec<IosPortTunnel> = Vec::new();
    while rest.len() > 0
        invariant
            ordered_by_id(out@),
            out@.to_multiset().add(rest@.to_multiset()) =~= all.to_multiset(),
        decreases rest@.len(),
    {
        let ghost before = rest@;
        let item = match rest.pop() {
            Some(x) => x,
            None => {
                return out;
            },
        };
        assert(before =~= rest@.push(item));
        let key = text::chars_of(item.tunnel_id.as_str());
        let mut p: usize = 0;
        while p < out.len() && !text::lex_less(&key, &text::chars_of(out[p].tunnel_id.as_str()))
            invariant
                p <= out@.len(),
                key@ == item.tunnel_id@,
                forall|k: int| 0 <= k < p ==> !text::lex_lt(item.tunnel_id@, #[trigger] out@[k].tunnel_id@),
            decreases out@.len() - p,
        {
            p = p + 1;
        }
        let ghost old_out = out@;
        out.insert(p, item);
        assert(out@ == old_out.insert(p as int, item));
        proof {
            vstd::seq_lib::to_multiset_build(rest@, item);
            vstd::seq_lib::to_multiset_insert(old_out, p as int, item);
            assert(out@.to_multiset().add(rest@.to_multiset()) =~= old_out.to_multiset().add(
                before.to_multiset(),
            ));
        }
        assert forall|i: int, j: int| 0 <= i < j < out@.len() implies !text::lex_lt(
            #[trigger] out@[j].tunnel_id@,
            #[trigger] out@[i].tunnel_id@,
        ) by {
            let x = item.tunnel_id@;
            if j == p {
                assert(out@[i] == old_out[i]);
            } else if i == p {
                assert(out@[j] == old_out[j - 1]);
                assert(text::lex_lt(x, old_out[p as int].tunnel_id@));
                if text::lex_lt(old_out[j - 1].tunnel_id@, x) {
                    text::lemma_lex_transitive(old_out[j - 1].tunnel_id@, x, old_out[p as int].tunnel_id@);
                    if j - 1 == p {
                        text::lemma_lex_irreflexive(x);
                        text::lemma_lex_total(x, old_out[p as int].tunnel_id@);
                    }
                }
            } else if j < p {
                assert(out@[i] == old_out[i]);
                assert(out@[j] == old_out[j]);
            } else if i < p {
                assert(out@[i] == old_out[i]);
                assert(out@[j] == old_out[j - 1]);
            } else {
                assert(out@[i] == old_out[i - 1]);
                assert(out@[j] == old_out[j - 1]);
            }
        }
    }
    assert(rest@ =~= Seq::<IosPortTunnel>::empty());
    out
}

} // verus!
