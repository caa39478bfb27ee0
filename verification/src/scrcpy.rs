//! Screen mirroring with scrcpy: the settings a user may choose, the fixed
//! arguments of the scrcpy client, server and video transcoder, the private
//! names of an embedded stream, and the checks on the viewer's HTTP request.
use crate::error::{is_error, ApiError, OperationResult, ProcessOutput};
use crate::models::{AndroidScreenStreamRequest, AndroidScreenStreamResult, ScrcpyRequest};
use crate::text;
use crate::validation;
use vstd::prelude::*;

verus! {

// ---------------------------------------------------------------------------
// Bit rates and the desktop client
// ---------------------------------------------------------------------------

pub open spec fn bit_rate_text_message() -> Seq<char> {
    "bitRate must look like 8000000, 8000K or 8M"@
}

/// The digits and the multiplier of a bit rate such as `8000000`, `8000K`
/// or `8M` (either letter case).
pub open spec fn bit_rate_parts(v: Seq<char>) -> (Seq<char>, nat) {
    if text::ends_with(v, seq!['K']) || text::ends_with(v, seq!['k']) {
        (v.drop_last(), 1000)
    } else if text::ends_with(v, seq!['M']) || text::ends_with(v, seq!['m']) {
        (v.drop_last(), 1000000)
    } else {
        (v, 1)
    }
}

/// The outcome of validating a bit rate: `Ok`, or the error message.
pub open spec fn bit_rate_check(v: Seq<char>) -> Result<(), Seq<char>> {
    if v.len() == 0 || text::utf8_len(v) > 12 {
        Err(bit_rate_text_message())
    } else {
        let (digits, multiplier) = bit_rate_parts(v);
        match text::parse_uint(digits, u64::MAX as nat) {
            Some(amount) => if amount == 0 {
                Err(bit_rate_text_message())
            } else if amount * multiplier > u64::MAX {
                Err("bitRate exceeds the supported range"@)
            } else if amount * multiplier < 64000 || amount * multiplier > 100000000 {
                Err("bitRate must be between 64 Kbit/s and 100 Mbit/s"@)
            } else {
                Ok(())
            },
            None => Err(bit_rate_text_message()),
        }
    }
}

/// Accepts a scrcpy video bit rate between 64 Kbit/s and 100 Mbit/s.
pub fn validate_bit_rate(value: &str) -> (r: Result<(), ApiError>)
    ensures
        match bit_rate_check(value@) {
            Ok(()) => r is Ok,
            Err(message) => r matches Err(e) && is_error(e, "invalid_bit_rate"@, message),
        },
{
    let cs = text::chars_of(value);
    let n = text::utf8_len_capped(&cs, 13);
    if cs.len() == 0 || n > 12 {
        return Err(ApiError::new("invalid_bit_rate", "bitRate must look like 8000000, 8000K or 8M"));
    }
    let last = cs[cs.len() - 1];
    proof {
        let v = cs@;
        assert(text::ends_with(v, seq![last]) ) by {
            assert(v.skip(v.len() - 1) =~= seq![last]);
        }
        assert forall|c: char| c != last implies !text::ends_with(v, seq![c]) by {
            if text::ends_with(v, seq![c]) {
                assert(v.skip(v.len() - 1)[0] == last);
            }
        }
    }
    let (digits, multiplier): (Vec<char>, u64) = if last == 'K' || last == 'k' {
        let d = text::slice_chars(&cs, 0, cs.len() - 1);
        assert(d@ =~= cs@.drop_last());
        (d, 1000)
    } else if last == 'M' || last == 'm' {
        let d = text::slice_chars(&cs, 0, cs.len() - 1);
        assert(d@ =~= cs@.drop_last());
        (d, 1000000)
    } else {
        (cs, 1)
    };
    let amount = match text::parse_uint_exec(&digits, u64::MAX) {
        Some(a) => {
            if a == 0 {
                return Err(
                    ApiError::new("invalid_bit_rate", "bitRate must look like 8000000, 8000K or 8M"),
                );
            }
            a
        },
        None => {
            return Err(
                ApiError::new("invalid_bit_rate", "bitRate must look like 8000000, 8000K or 8M"),
            );
        },
    };
    let bits = match amount.checked_mul(multiplier) {
        Some(b) => b,
        None => {
            return Err(ApiError::new("invalid_bit_rate", "bitRate exceeds the supported range"));
        },
    };
    if bits < 64000 || bits > 100000000 {
        return Err(
            ApiError::new("invalid_bit_rate", "bitRate must be between 64 Kbit/s and 100 Mbit/s"),
        );
    }
    Ok(())
}

/// The arguments of the desktop scrcpy client; a zero size keeps the
/// device's resolution.
pub open spec fn launch_args(
    serial: Seq<char>,
    max_size: Option<u32>,
    bit_rate: Option<Seq<char>>,
    off: bool,
    awake: bool,
    no_audio: bool,
) -> Seq<Seq<char>> {
    seq!["--serial"@, serial] + (match max_size {
        Some(m) => if m != 0 {
            seq!["--max-size"@, text::decimal(m as nat)]
        } else {
            Seq::empty()
        },
        None => Seq::empty(),
    }) + (match bit_rate {
        Some(b) => seq!["--video-bit-rate"@, b],
        None => Seq::empty(),
    }) + (if off {
        seq!["--turn-screen-off"@]
    } else {
        Seq::empty()
    }) + (if awake {
        seq!["--stay-awake"@]
    } else {
        Seq::empty()
    }) + (if no_audio {
        seq!["--no-audio"@]
    } else {
        Seq::empty()
    })
}

pub open spec fn max_size_ok(max_size: Option<u32>) -> bool {
    match max_size {
        Some(m) => m == 0 || (320 <= m && m <= 8192),
        None => true,
    }
}

/// Checks a desktop mirroring request and builds the client's arguments.
pub fn launch_arguments(request: &ScrcpyRequest) -> (r: Result<Vec<String>, ApiError>)
    ensures
        validation::serial_check(request.serial@) matches Err((code, message)) ==> (r matches Err(e)
            && is_error(e, code, message)),
        validation::serial_check(request.serial@) is Ok && !max_size_ok(request.max_size) ==> (r matches Err(e)
            && is_error(
            e,
            "invalid_max_size"@,
            "scrcpy maxSize must be zero or between 320 and 8192"@,
        )),
        validation::serial_check(request.serial@) is Ok && max_size_ok(request.max_size) ==> match request.bit_rate {
            Some(b) => match bit_rate_check(b@) {
                Err(message) => r matches Err(e) && is_error(e, "invalid_bit_rate"@, message),
                Ok(()) => r matches Ok(args) && text::string_views(args@) == launch_args(
                    request.serial@,
                    request.max_size,
                    Some(b@),
                    request.turn_screen_off,
                    request.stay_awake,
                    request.no_audio,
                ),
            },
            None => r matches Ok(args) && text::string_views(args@) == launch_args(
                request.serial@,
                request.max_size,
                None,
                request.turn_screen_off,
                request.stay_awake,
                request.no_audio,
            ),
        },
{
    validation::serial(request.serial.as_str())?;
    let mut args: Vec<String> = Vec::new();
    text::push_str(&mut args, "--serial");
    text::push_str(&mut args, request.serial.as_str());
    let ghost a0 = text::string_views(args@);
    if let Some(max_size) = request.max_size {
        if max_size != 0 {
            if 320 <= max_size && max_size <= 8192 {
                text::push_str(&mut args, "--max-size");
                let d = text::decimal_string(max_size as u64);
                text::push_str(&mut args, d.as_str());
            } else {
                return Err(
                    ApiError::new(
                        "invalid_max_size",
                        "scrcpy maxSize must be zero or between 320 and 8192",
                    ),
                );
            }
        }
    }
    let ghost a1 = text::string_views(args@);
    if let Some(bit_rate) = &request.bit_rate {
        validate_bit_rate(bit_rate.as_str())?;
        text::push_str(&mut args, "--video-bit-rate");
        text::push_str(&mut args, bit_rate.as_str());
    }
    let ghost a2 = text::string_views(args@);
    if request.turn_screen_off {
        text::push_str(&mut args, "--turn-screen-off");
    }
    let ghost a3 = text::string_views(args@);
    if request.stay_awake {
        text::push_str(&mut args, "--stay-awake");
    }
    let ghost a4 = text::string_views(args@);
    if request.no_audio {
        text::push_str(&mut args, "--no-audio");
    }
    assert(text::string_views(args@) =~= launch_args(
        request.serial@,
        request.max_size,
        match request.bit_rate {
            Some(b) => Some(b@),
            None => None,
        },
        request.turn_screen_off,
        request.stay_awake,
        request.no_audio,
    ));
    Ok(args)
}

// ---------------------------------------------------------------------------
// The embedded stream
// ---------------------------------------------------------------------------

/// The stream settings: the requested values or the defaults (1024 pixels,
/// 4 Mbit/s, 15 frames per second), each within its range.
pub fn stream_settings(request: &AndroidScreenStreamRequest) -> (r: Result<(u16, u32, u8), ApiError>)
    ensures
        ({
            let size = match request.max_size {
                Some(v) => v,
                None => 1024u16,
            };
            let rate = match request.bit_rate {
                Some(v) => v,
                None => 4000000u32,
            };
            let fps = match request.max_fps {
                Some(v) => v,
                None => 15u8,
            };
            &&& !(320 <= size <= 1920) ==> (r matches Err(e) && is_error(
                e,
                "invalid_stream_max_size"@,
                "Embedded stream maxSize must be between 320 and 1920"@,
            ))
            &&& (320 <= size <= 1920) && !(250000 <= rate <= 20000000) ==> (r matches Err(e)
                && is_error(
                e,
                "invalid_stream_bit_rate"@,
                "Embedded stream bitRate must be between 250 Kbit/s and 20 Mbit/s"@,
            ))
            &&& (320 <= size <= 1920) && (250000 <= rate <= 20000000) && !(5 <= fps <= 30) ==> (r matches Err(e)
                && is_error(
                e,
                "invalid_stream_frame_rate"@,
                "Embedded stream maxFps must be between 5 and 30"@,
            ))
            &&& (320 <= size <= 1920) && (250000 <= rate <= 20000000) && (5 <= fps <= 30) ==> r
                == Ok::<(u16, u32, u8), ApiError>((size, rate, fps))
        }),
{
    let size = match request.max_size {
        Some(v) => v,
        None => 1024,
    };
    if !(320 <= size && size <= 1920) {
        return Err(
            ApiError::new(
                "invalid_stream_max_size",
                "Embedded stream maxSize must be between 320 and 1920",
            ),
        );
    }
    let rate = match request.bit_rate {
        Some(v) => v,
        None => 4000000,
    };
    if !(250000 <= rate && rate <= 20000000) {
        return Err(
            ApiError::new(
                "invalid_stream_bit_rate",
                "Embedded stream bitRate must be between 250 Kbit/s and 20 Mbit/s",
            ),
        );
    }
    let fps = match request.max_fps {
        Some(v) => v,
        None => 15,
    };
    if !(5 <= fps && fps <= 30) {
        return Err(
            ApiError::new(
                "invalid_stream_frame_rate",
                "Embedded stream maxFps must be between 5 and 30",
            ),
        );
    }
    Ok((size, rate, fps))
}

/// `adb get-state` finished in time, successfully, and reported `device`.
pub fn check_stream_device_state(output: &ProcessOutput) -> (r: Result<(), ApiError>)
    ensures
        (!output.timed_out && output.exit_code == Some(0i32) && text::trim(output.stdout@)
            == "device"@) ==> r is Ok,
        !(!output.timed_out && output.exit_code == Some(0i32) && text::trim(output.stdout@)
            == "device"@) ==> (r matches Err(e) && is_error(
            e,
            "device_not_online"@,
            "The selected Android device is not online"@,
        )),
{
    let cs = text::chars_of(output.stdout.as_str());
    let t = text::trim_exec(&cs);
    let ok_status = match output.exit_code {
        Some(c) => c == 0,
        None => false,
    };
    if output.timed_out || !ok_status || !text::eq_str(&t, "device") {
        return Err(ApiError::new("device_not_online", "The selected Android device is not online"));
    }
    Ok(())
}

/// The stream's connection id: the first four random bytes as eight hex
/// digits, the top bit cleared (a positive 31-bit number).
pub open spec fn scid_spec(random: Seq<u8>) -> Seq<char> {
    text::hex(seq![random[0] & 0x7f, random[1], random[2], random[3]])
}

pub fn scid_of(random: &[u8]) -> (r: String)
    requires
        random@.len() >= 4,
    ensures
        r@ == scid_spec(random@),
{
    let bytes: Vec<u8> = vec![random[0] & 0x7f, random[1], random[2], random[3]];
    assert(bytes@ =~= seq![random@[0] & 0x7f, random@[1], random@[2], random@[3]]);
    text::hex_bytes(&bytes)
}

/// The identity of a new embedded stream from fresh random bytes: the
/// connection id and session id from one 16-byte draw, the access token from
/// another.
pub fn new_stream_identity() -> (r: Result<(String, String, String), ApiError>)
    ensures
        r matches Ok((scid, session, token)) ==> (exists|b: Seq<u8>|
            b.len() == 16 && scid@ == scid_spec(b) && #[trigger] text::hex(b) == session@) && (exists|t: Seq<
            u8,
        >| t.len() == 16 && #[trigger] text::hex(t) == token@),
        r matches Err(e) ==> e.code@ == "secure_random_unavailable"@ && text::starts_with(
            e.message@,
            "Unable to create a private screen session: "@,
        ) && e.details is None,
{
    let b = match crate::encoding::random_bytes(16) {
        Ok(b) => b,
        Err(error) => return Err(random_unavailable(&error)),
    };
    let t = match crate::encoding::random_bytes(16) {
        Ok(t) => t,
        Err(error) => return Err(random_unavailable(&error)),
    };
    let scid = scid_of(&b);
    let session = text::hex_bytes(&b);
    let token = text::hex_bytes(&t);
    assert(b@.len() == 16 && scid@ == scid_spec(b@) && text::hex(b@) == session@);
    assert(t@.len() == 16 && text::hex(t@) == token@);
    Ok((scid, session, token))
}

/// The error for a failed random draw, with the system's reason.
fn random_unavailable(error: &getrandom::Error) -> (e: ApiError)
    ensures
        e.code@ == "secure_random_unavailable"@,
        text::starts_with(e.message@, "Unable to create a private screen session: "@),
        e.details is None,
{
    let prefix = "Unable to create a private screen session: ";
    let message = text::concat_strs(prefix, crate::encoding::random_error_text(error).as_str());
    assert(message@.take(prefix@.len() as int) =~= prefix@);
    ApiError::with_message("secure_random_unavailable", message)
}

/// The device path of the pushed scrcpy server.
pub fn stream_remote_path(scid: &str) -> (r: String)
    ensures
        r@ == "/data/local/tmp/mobius-display-"@ + scid@ + ".jar"@,
{
    let mut c = text::chars_of("/data/local/tmp/mobius-display-");
    text::append_str(&mut c, scid);
    text::append_str(&mut c, ".jar");
    text::string_of(&c)
}

/// The device socket the server connects to.
pub fn stream_socket_name(scid: &str) -> (r: String)
    ensures
        r@ == "localabstract:scrcpy_"@ + scid@,
{
    text::concat_strs("localabstract:scrcpy_", scid)
}

/// The arguments of `adb reverse` that carry the video to a host port.
pub fn stream_reverse_arguments(serial: &str, socket_name: &str, input_port: u16) -> (r: Vec<String>)
    ensures
        text::string_views(r@) == seq![
            "-s"@,
            serial@,
            "reverse"@,
            socket_name@,
            "tcp:"@ + text::decimal(input_port as nat),
        ],
{
    let mut args: Vec<String> = Vec::new();
    text::push_str(&mut args, "-s");
    text::push_str(&mut args, serial);
    text::push_str(&mut args, "reverse");
    text::push_str(&mut args, socket_name);
    let d = text::decimal_string(input_port as u64);
    let t = text::concat_strs("tcp:", d.as_str());
    text::push_str(&mut args, t.as_str());
    assert(text::string_views(args@) =~= seq![
        "-s"@,
        serial@,
        "reverse"@,
        socket_name@,
        "tcp:"@ + text::decimal(input_port as nat),
    ]);
    args
}

/// The adb arguments that start the scrcpy server of the same version as
/// the client: video only, no control, raw H.264.
pub open spec fn server_args(
    serial: Seq<char>,
    remote_path: Seq<char>,
    version: Seq<char>,
    scid: Seq<char>,
    max_size: u16,
    max_fps: u8,
    bit_rate: u32,
) -> Seq<Seq<char>> {
    seq![
        "-s"@,
        serial,
        "shell"@,
        "CLASSPATH="@ + remote_path,
        "app_process"@,
        "/"@,
        "com.genymobile.scrcpy.Server"@,
        version,
        "scid="@ + scid,
        "log_level=warn"@,
        "audio=false"@,
        "control=false"@,
        "cleanup=true"@,
        "raw_stream=true"@,
        "max_size="@ + text::decimal(max_size as nat),
        "max_fps="@ + text::decimal(max_fps as nat),
        "video_bit_rate="@ + text::decimal(bit_rate as nat),
    ]
}

pub fn stream_server_arguments(
    serial: &str,
    remote_path: &str,
    version: &str,
    scid: &str,
    max_size: u16,
    max_fps: u8,
    bit_rate: u32,
) -> (r: Vec<String>)
    ensures
        text::string_views(r@) == server_args(
            serial@,
            remote_path@,
            version@,
            scid@,
            max_size,
            max_fps,
            bit_rate,
        ),
{
    let mut args: Vec<String> = Vec::new();
    text::push_str(&mut args, "-s");
    text::push_str(&mut args, serial);
    text::push_str(&mut args, "shell");
    let cp = text::concat_strs("CLASSPATH=", remote_path);
    text::push_str(&mut args, cp.as_str());
    text::push_str(&mut args, "app_process");
    text::push_str(&mut args, "/");
    text::push_str(&mut args, "com.genymobile.scrcpy.Server");
    text::push_str(&mut args, version);
    let s = text::concat_strs("scid=", scid);
    text::push_str(&mut args, s.as_str());
    text::push_str(&mut args, "log_level=warn");
    text::push_str(&mut args, "audio=false");
    text::push_str(&mut args, "control=false");
    text::push_str(&mut args, "cleanup=true");
    text::push_str(&mut args, "raw_stream=true");
    let ms = text::decimal_string(max_size as u64);
    let ms = text::concat_strs("max_size=", ms.as_str());
    text::push_str(&mut args, ms.as_str());
    let mf = text::decimal_string(max_fps as u64);
    let mf = text::concat_strs("max_fps=", mf.as_str());
    text::push_str(&mut args, mf.as_str());
    let br = text::decimal_string(bit_rate as u64);
    let br = text::concat_strs("video_bit_rate=", br.as_str());
    text::push_str(&mut args, br.as_str());
    assert(text::string_views(args@) =~= server_args(
        serial@,
        remote_path@,
        version@,
        scid@,
        max_size,
        max_fps,
        bit_rate,
    ));
    args
}

/// The fixed ffmpeg arguments that turn the raw H.264 stream from standard
/// input into multipart MJPEG on standard output.
pub open spec fn transcoder_args() -> Seq<Seq<char>> {
    seq![
        "-hide_banner"@,
        "-loglevel"@,
        "warning"@,
        "-probesize"@,
        "32768"@,
        "-analyzeduration"@,
        "0"@,
        "-fpsprobesize"@,
        "0"@,
        "-f"@,
        "h264"@,
        "-i"@,
        "pipe:0"@,
        "-an"@,
        "-vf"@,
        "format=yuvj420p"@,
        "-fps_mode"@,
        "passthrough"@,
        "-c:v"@,
        "mjpeg"@,
        "-q:v"@,
        "6"@,
        "-flush_packets"@,
        "1"@,
        "-f"@,
        "mpjpeg"@,
        "pipe:1"@,
    ]
}

pub fn transcoder_arguments() -> (r: Vec<String>)
    ensures
        text::string_views(r@) == transcoder_args(),
{
    let mut args: Vec<String> = Vec::new();
    text::push_str(&mut args, "-hide_banner");
    text::push_str(&mut args, "-loglevel");
    text::push_str(&mut args, "warning");
    text::push_str(&mut args, "-probesize");
    text::push_str(&mut args, "32768");
    text::push_str(&mut args, "-analyzeduration");
    text::push_str(&mut args, "0");
    text::push_str(&mut args, "-fpsprobesize");
    text::push_str(&mut args, "0");
    text::push_str(&mut args, "-f");
    text::push_str(&mut args, "h264");
    text::push_str(&mut args, "-i");
    text::push_str(&mut args, "pipe:0");
    text::push_str(&mut args, "-an");
    text::push_str(&mut args, "-vf");
    text::push_str(&mut args, "format=yuvj420p");
    text::push_str(&mut args, "-fps_mode");
    text::push_str(&mut args, "passthrough");
    text::push_str(&mut args, "-c:v");
    text::push_str(&mut args, "mjpeg");
    text::push_str(&mut args, "-q:v");
    text::push_str(&mut args, "6");
    text::push_str(&mut args, "-flush_packets");
    text::push_str(&mut args, "1");
    text::push_str(&mut args, "-f");
    text::push_str(&mut args, "mpjpeg");
    text::push_str(&mut args, "pipe:1");
    assert(text::string_views(args@) =~= transcoder_args());
    args
}

/// The path a viewer must request: the session id and the secret token.
pub fn stream_target(session_id: &str, token: &str) -> (r: String)
    ensures
        r@ == "/screen/"@ + session_id@ + "?token="@ + token@,
{
    let mut c = text::chars_of("/screen/");
    text::append_str(&mut c, session_id);
    text::append_str(&mut c, "?token=");
    text::append_str(&mut c, token);
    text::string_of(&c)
}

/// The result of a started stream.
pub fn stream_result(
    serial: String,
    session_id: &str,
    token: &str,
    http_port: u16,
    max_size: u16,
    max_fps: u8,
    width: Option<u32>,
    height: Option<u32>,
) -> (r: AndroidScreenStreamResult)
    ensures
        r.success,
        r.message@ == "Embedded scrcpy video stream started"@,
        r.session_id@ == session_id@,
        r.stream_url@ == "http://127.0.0.1:"@ + text::decimal(http_port as nat) + "/screen/"@
            + session_id@ + "?token="@ + token@,
        r.serial == serial,
        r.codec@ == "H.264 -> MJPEG"@,
        r.transport@ == "adb-reverse-loopback"@,
        r.max_size == max_size && r.max_fps == max_fps,
        r.width == width && r.height == height,
{
    let mut url = text::chars_of("http://127.0.0.1:");
    let d = text::decimal_exec(http_port as u64);
    text::append(&mut url, &d);
    let target = stream_target(session_id, token);
    text::append_str(&mut url, target.as_str());
    AndroidScreenStreamResult {
        success: true,
        message: text::copy_str("Embedded scrcpy video stream started"),
        session_id: text::copy_str(session_id),
        stream_url: text::string_of(&url),
        serial,
        codec: text::copy_str("H.264 -> MJPEG"),
        transport: text::copy_str("adb-reverse-loopback"),
        max_size,
        max_fps,
        width,
        height,
    }
}

/// A stream session id: 32 ASCII hexadecimal digits.
pub open spec fn session_id_ok(s: Seq<char>) -> bool {
    text::utf8_len(s) == 32 && forall|i: int| 0 <= i < s.len() ==> is_hex_digit(#[trigger] s[i])
}

pub open spec fn is_hex_digit(c: char) -> bool {
    text::is_digit(c) || ('a' <= c && c <= 'f') || ('A' <= c && c <= 'F')
}

/// Checks the session id of a stop request.
pub fn check_session_id(session_id: &str) -> (r: Result<(), ApiError>)
    ensures
        session_id_ok(session_id@) ==> r is Ok,
        !session_id_ok(session_id@) ==> (r matches Err(e) && is_error(
            e,
            "invalid_stream_session"@,
            "Screen stream session id is invalid"@,
        )),
{
    let cs = text::chars_of(session_id);
    let n = text::utf8_len_capped(&cs, 33);
    let mut ok = n == 32;
    let mut i: usize = 0;
    while i < cs.len()
        invariant
            i <= cs@.len(),
            ok == (text::utf8_len(cs@) == 32 && forall|j: int|
                0 <= j < i ==> is_hex_digit(#[trigger] cs@[j])),
        decreases cs@.len() - i,
    {
        let c = cs[i];
        if !(text::is_digit_exec(c) || ('a' <= c && c <= 'f') || ('A' <= c && c <= 'F')) {
            ok = false;
        }
        i = i + 1;
    }
    if !ok {
        return Err(ApiError::new("invalid_stream_session", "Screen stream session id is invalid"));
    }
    Ok(())
}

/// Whether a stop request removes the device's active stream: it does when
/// the session matches, there is nothing to remove when none is active, and
/// a stale session is refused.
pub fn stop_stream_decision(active_session: Option<&str>, requested: &str) -> (r: Result<
    bool,
    ApiError,
>)
    ensures
        active_session is None ==> r == Ok::<bool, ApiError>(false),
        active_session matches Some(a) && a@ == requested@ ==> r == Ok::<bool, ApiError>(true),
        active_session matches Some(a) && a@ != requested@ ==> (r matches Err(e) && is_error(
            e,
            "stream_session_mismatch"@,
            "The requested stream session is no longer active for this device"@,
        )),
{
    match active_session {
        None => Ok(false),
        Some(a) => {
            if text::eq_str_str(a, requested) {
                Ok(true)
            } else {
                Err(
                    ApiError::new(
                        "stream_session_mismatch",
                        "The requested stream session is no longer active for this device",
                    ),
                )
            }
        },
    }
}

/// The result of a stop.
pub fn stream_stopped_result() -> (r: OperationResult)
    ensures
        r.success,
        r.message@ == "Embedded screen stream stopped"@,
        r.stdout is None && r.stderr is None && r.pid is None,
        r.exit_code == Some(0i32),
        !r.timed_out,
{
    OperationResult {
        success: true,
        message: text::copy_str("Embedded screen stream stopped"),
        stdout: None,
        stderr: None,
        pid: None,
        exit_code: Some(0),
        timed_out: false,
    }
}

// ---------------------------------------------------------------------------
// The viewer's HTTP request
// ---------------------------------------------------------------------------

/// Origins of the application's own web view.
pub open spec fn allowed_origin(origin: Seq<char>) -> bool {
    ||| origin == "tauri://localhost"@
    ||| origin == "http://tauri.localhost"@
    ||| origin == "https://tauri.localhost"@
    ||| origin == "http://localhost:1420"@
    ||| origin == "http://127.0.0.1:1420"@
}

pub fn allowed_stream_origin(origin: &str) -> (r: bool)
    ensures
        r == allowed_origin(origin@),
{
    text::eq_str_str(origin, "tauri://localhost") || text::eq_str_str(
        origin,
        "http://tauri.localhost",
    ) || text::eq_str_str(origin, "https://tauri.localhost") || text::eq_str_str(
        origin,
        "http://localhost:1420",
    ) || text::eq_str_str(origin, "http://127.0.0.1:1420")
}

/// A header line split into its trimmed name and value.
pub open spec fn header_field(line: Seq<char>) -> Option<(Seq<char>, Seq<char>)> {
    match text::split_once(line, seq![':']) {
        Some((n, v)) => Some((text::trim(n), text::trim(v))),
        None => None,
    }
}

pub open spec fn loopback_host(v: Seq<char>) -> bool {
    v == "localhost"@ || text::starts_with(v, "localhost:"@) || v == "127.0.0.1"@
        || text::starts_with(v, "127.0.0.1:"@)
}

/// Whether the last `Host` header names the loopback host.
pub open spec fn last_host_loopback(ls: Seq<Seq<char>>) -> bool
    decreases ls.len(),
{
    if ls.len() == 0 {
        false
    } else {
        match header_field(ls.last()) {
            Some((n, v)) => if text::lower(n) == "host"@ {
                loopback_host(v)
            } else {
                last_host_loopback(ls.drop_last())
            },
            None => last_host_loopback(ls.drop_last()),
        }
    }
}

/// Some `Origin` header names a foreign origin.
pub open spec fn foreign_origin(ls: Seq<Seq<char>>) -> bool {
    exists|i: int|
        0 <= i < ls.len() && (header_field(#[trigger] ls[i]) matches Some((n, v)) && text::lower(n)
            == "origin"@ && !allowed_origin(v))
}

/// The request line is exactly `GET <target> HTTP/1.x`.
pub open spec fn request_line_ok(line: Seq<char>, target: Seq<char>) -> bool {
    let w = text::words(line);
    w.len() == 3 && w[0] == "GET"@ && w[1] == target && (w[2] == "HTTP/1.1"@ || w[2]
        == "HTTP/1.0"@)
}

/// The viewer's request is accepted: the exact target with the secret
/// token, a loopback `Host`, and no foreign `Origin`.
pub open spec fn stream_request_ok(header: Seq<char>, target: Seq<char>) -> bool {
    let ls = text::split_on(header, "\r\n"@);
    request_line_ok(ls[0], target) && !foreign_origin(ls.drop_first()) && last_host_loopback(
        ls.drop_first(),
    )
}

pub proof fn lemma_split_on_nonempty(s: Seq<char>, sep: Seq<char>)
    ensures
        text::split_on(s, sep).len() >= 1,
    decreases s.len(),
{
    if sep.len() > 0 {
        match text::find(s, sep) {
            Some(i) => {
                text::lemma_find_from_bounds(s, sep, 0);
                lemma_split_on_nonempty(s.skip(i + sep.len()), sep);
            },
            None => {},
        }
    }
}

#[verifier::loop_isolation(false)]
pub fn valid_stream_request(header: &str, expected_target: &str) -> (r: bool)
    ensures
        r == stream_request_ok(header@, expected_target@),
{
    proof {
        reveal_strlit("\r\n");
        lemma_split_on_nonempty(header@, "\r\n"@);
    }
    let cs = text::chars_of(header);
    let ls = text::split_on_exec(&cs, "\r\n");
    let ghost vs = text::views(ls@);
    assert(vs[0] == ls@[0]@);
    let w = text::words_exec(&ls[0]);
    let ghost wv = text::views(w@);
    if w.len() != 3 {
        return false;
    }
    assert(wv[0] == w@[0]@ && wv[1] == w@[1]@ && wv[2] == w@[2]@);
    if !text::eq_str(&w[0], "GET") || !text::eq_str(&w[1], expected_target) || !(text::eq_str(
        &w[2],
        "HTTP/1.1",
    ) || text::eq_str(&w[2], "HTTP/1.0")) {
        return false;
    }
    let ghost rest = vs.drop_first();
    let colon: Vec<char> = vec![':'];
    assert(colon@ =~= seq![':']);
    let mut host_ok = false;
    let mut i: usize = 1;
    while i < ls.len()
        invariant
            vs == text::views(ls@),
            rest == vs.drop_first(),
            colon@ == seq![':'],
            1 <= i <= ls@.len(),
            host_ok == last_host_loopback(rest.take(i - 1)),
            !foreign_origin(rest.take(i - 1)),
        decreases ls@.len() - i,
    {
        let ghost prev = rest.take(i - 1);
        let ghost line = vs[i as int];
        assert(rest.take(i as int).drop_last() =~= prev);
        assert(rest.take(i as int).last() == line);
        assert(line == ls@[i as int]@);
        match text::split_once_exec(&ls[i], &colon) {
            Some((n, v)) => {
                let name = text::trim_exec(&n);
                let value = text::trim_exec(&v);
                let lname = text::lower_exec(&name);
                assert(header_field(line) == Some((name@, value@)));
                if text::eq_str(&lname, "host") {
                    host_ok = text::eq_str(&value, "localhost") || text::starts_with_str(
                        &value,
                        "localhost:",
                    ) || text::eq_str(&value, "127.0.0.1") || text::starts_with_str(
                        &value,
                        "127.0.0.1:",
                    );
                }
                if text::eq_str(&lname, "origin") {
                    let vs2 = text::string_of(&value);
                    if !allowed_stream_origin(vs2.as_str()) {
                        assert(rest[i - 1] == line);
                        assert(foreign_origin(rest));
                        return false;
                    }
                }
                assert(!foreign_origin(rest.take(i as int))) by {
                    if foreign_origin(rest.take(i as int)) {
                        let k = choose|k: int|
                            0 <= k < rest.take(i as int).len() && (header_field(
                                #[trigger] rest.take(i as int)[k],
                            ) matches Some((n, v)) && text::lower(n) == "origin"@
                                && !allowed_origin(v));
                        if k < i - 1 {
                            assert(prev[k] == rest.take(i as int)[k]);
                        }
                    }
                }
            },
            None => {
                assert(!foreign_origin(rest.take(i as int))) by {
                    if foreign_origin(rest.take(i as int)) {
                        let k = choose|k: int|
                            0 <= k < rest.take(i as int).len() && (header_field(
                                #[trigger] rest.take(i as int)[k],
                            ) matches Some((n, v)) && text::lower(n) == "origin"@
                                && !allowed_origin(v));
                        if k < i - 1 {
                            assert(prev[k] == rest.take(i as int)[k]);
                        }
                    }
                }
            },
        }
        i = i + 1;
    }
    assert(rest.take(i - 1) =~= rest);
    host_ok
}

// ---------------------------------------------------------------------------
// Tool versions and output
// ---------------------------------------------------------------------------

pub open spec fn version_char(c: char) -> bool {
    text::is_alnum(c) || c == '.' || c == '-' || c == '_'
}

/// The text after `scrcpy ` on the first line that starts with it.
pub open spec fn version_suffix(ls: Seq<Seq<char>>) -> Option<Seq<char>>
    decreases ls.len(),
{
    if ls.len() == 0 {
        None
    } else {
        match text::strip_prefix(text::trim(ls[0]), "scrcpy "@) {
            Some(s) => Some(s),
            None => version_suffix(ls.drop_first()),
        }
    }
}

/// The client version: the first word after `scrcpy `, when it is a safe
/// token of at most 32 bytes (letters, digits, `.`, `-`, `_`).
pub open spec fn scrcpy_version(output: Seq<char>) -> Option<Seq<char>> {
    match version_suffix(text::lines(output)) {
        Some(s) => {
            let w = text::words(s);
            if w.len() > 0 && w[0].len() > 0 && text::utf8_len(w[0]) <= 32 && (forall|i: int|
                0 <= i < w[0].len() ==> version_char(#[trigger] w[0][i])) {
                Some(w[0])
            } else {
                None
            }
        },
        None => None,
    }
}

#[verifier::loop_isolation(false)]
pub fn parse_scrcpy_version(output: &str) -> (r: Option<String>)
    ensures
        text::opt_view(r) == scrcpy_version(output@),
{
    let ls = text::lines_of(output);
    let ghost vs = text::views(ls@);
    let mut i: usize = 0;
    let mut suffix: Option<Vec<char>> = None;
    assert(vs.skip(0) =~= vs);
    while i < ls.len() && suffix.is_none()
        invariant
            vs == text::views(ls@),
            vs == text::lines(output@),
            i <= ls@.len(),
            suffix is None ==> version_suffix(vs) == version_suffix(vs.skip(i as int)),
            suffix matches Some(x) ==> version_suffix(vs) == Some(x@),
        decreases ls@.len() - i,
    {
        let t = text::trim_exec(&ls[i]);
        assert(vs.skip(i as int)[0] == ls@[i as int]@);
        assert(vs.skip(i as int).drop_first() =~= vs.skip(i + 1));
        suffix = text::strip_prefix_str(&t, "scrcpy ");
        i = i + 1;
    }
    let s = match suffix {
        Some(s) => s,
        None => {
            assert(vs.skip(i as int) =~= Seq::<Seq<char>>::empty());
            return None;
        },
    };
    let w = text::words_exec(&s);
    if w.len() == 0 {
        return None;
    }
    let first = &w[0];
    let ghost wv = text::views(w@);
    assert(wv[0] == first@);
    if first.len() == 0 || text::utf8_len_capped(first, 33) > 32 {
        return None;
    }
    let mut k: usize = 0;
    while k < first.len()
        invariant
            k <= first@.len(),
            forall|j: int| 0 <= j < k ==> version_char(#[trigger] first@[j]),
        decreases first@.len() - k,
    {
        let c = first[k];
        if !(text::is_alnum_exec(c) || c == '.' || c == '-' || c == '_') {
            assert(!version_char(first@[k as int]));
            return None;
        }
        k = k + 1;
    }
    Some(text::string_of(first))
}

/// The client version read from `scrcpy --version`, whose banner may be on
/// either output stream.
pub fn scrcpy_version_from(output: &ProcessOutput) -> (r: Result<String, ApiError>)
    ensures
        match scrcpy_version(output.stdout@ + seq!['\n'] + output.stderr@) {
            Some(v) => r matches Ok(s) && s@ == v,
            None => r matches Err(e) && is_error(
                e,
                "scrcpy_version_unavailable"@,
                "Unable to read a safe scrcpy client version for the embedded stream"@,
            ),
        },
{
    let mut c = text::chars_of(output.stdout.as_str());
    c.push('\n');
    text::append_str(&mut c, output.stderr.as_str());
    assert(c@ =~= output.stdout@ + seq!['\n'] + output.stderr@);
    let combined = text::string_of(&c);
    match parse_scrcpy_version(combined.as_str()) {
        Some(v) => Ok(v),
        None => Err(
            ApiError::new(
                "scrcpy_version_unavailable",
                "Unable to read a safe scrcpy client version for the embedded stream",
            ),
        ),
    }
}

/// A scrcpy server file of plausible size: 16 KiB to 32 MiB.
pub open spec fn server_size_ok(len: u64) -> bool {
    16384 <= len && len <= 33554432
}

pub fn acceptable_server_size(len: u64) -> (r: bool)
    ensures
        r == server_size_ok(len),
{
    16384 <= len && len <= 33554432
}

/// The output of a finished tool, or the error it reported.
pub fn require_success(output: ProcessOutput) -> (r: Result<ProcessOutput, ApiError>)
    ensures
        output.timed_out ==> (r matches Err(e) && is_error(
            e,
            "process_timeout"@,
            "External tool timed out"@,
        )),
        !output.timed_out && output.exit_code != Some(0i32) ==> (r matches Err(e) && is_error(
            e,
            "process_failed"@,
            if text::trim(output.stderr@).len() == 0 {
                if text::trim(output.stdout@).len() == 0 {
                    "External tool failed"@
                } else {
                    text::trim(output.stdout@)
                }
            } else {
                text::trim(output.stderr@)
            },
        )),
        !output.timed_out && output.exit_code == Some(0i32) ==> r == Ok::<ProcessOutput, ApiError>(
            output,
        ),
{
    if output.timed_out {
        return Err(ApiError::new("process_timeout", "External tool timed out"));
    }
    let ok = match output.exit_code {
        Some(c) => c == 0,
        None => false,
    };
    if !ok {
        let err = text::chars_of(output.stderr.as_str());
        let err = text::trim_exec(&err);
        let detail = if err.len() == 0 {
            let out = text::chars_of(output.stdout.as_str());
            text::trim_exec(&out)
        } else {
            err
        };
        if detail.len() == 0 {
            return Err(ApiError::new("process_failed", "External tool failed"));
        }
        return Err(ApiError::with_message("process_failed", text::string_of(&detail)));
    }
    Ok(output)
}

/// Strips the characters other than ASCII digits from both ends.
pub open spec fn trim_nondigits_start(s: Seq<char>) -> Seq<char>
    decreases s.len(),
{
    if s.len() > 0 && !text::is_digit(s[0]) {
        trim_nondigits_start(s.drop_first())
    } else {
        s
    }
}

pub open spec fn trim_nondigits_end(s: Seq<char>) -> Seq<char>
    decreases s.len(),
{
    if s.len() > 0 && !text::is_digit(s.last()) {
        trim_nondigits_end(s.drop_last())
    } else {
        s
    }
}

pub open spec fn trim_nondigits(s: Seq<char>) -> Seq<char> {
    trim_nondigits_end(trim_nondigits_start(s))
}

fn trim_nondigits_start_exec(s: &[char]) -> (r: Vec<char>)
    ensures
        r@ == trim_nondigits_start(s@),
{
    let mut i: usize = 0;
    assert(s@.skip(0) =~= s@);
    while i < s.len() && !text::is_digit_exec(s[i])
        invariant
            i <= s@.len(),
            trim_nondigits_start(s@) == trim_nondigits_start(s@.skip(i as int)),
        decreases s@.len() - i,
    {
        assert(s@.skip(i as int).drop_first() =~= s@.skip(i + 1));
        i = i + 1;
    }
    text::slice_chars(s, i, s.len())
}

fn trim_nondigits_end_exec(a: &[char]) -> (r: Vec<char>)
    ensures
        r@ == trim_nondigits_end(a@),
{
    let mut n: usize = a.len();
    assert(a@.take(n as int) =~= a@);
    while n > 0 && !text::is_digit_exec(a[n - 1])
        invariant
            n <= a@.len(),
            trim_nondigits_end(a@) == trim_nondigits_end(a@.take(n as int)),
        decreases n,
    {
        assert(a@.take(n as int).drop_last() =~= a@.take(n - 1));
        n = n - 1;
    }
    let r = text::slice_chars(a, 0, n);
    assert(r@ =~= a@.take(n as int));
    r
}

fn trim_nondigits_exec(s: &[char]) -> (r: Vec<char>)
    ensures
        r@ == trim_nondigits(s@),
{
    let a = trim_nondigits_start_exec(s);
    trim_nondigits_end_exec(&a)
}

/// The size named by one `WIDTHxHEIGHT` token.
pub open spec fn size_of_token(t: Seq<char>) -> Option<(nat, nat)> {
    match text::split_once(text::trim(t), seq!['x']) {
        Some((w, h)) => match (
            text::parse_uint(trim_nondigits(w), u32::MAX as nat),
            text::parse_uint(trim_nondigits(h), u32::MAX as nat),
        ) {
            (Some(a), Some(b)) => Some((a, b)),
            _ => None,
        },
        None => None,
    }
}

/// The last size token of `wm size` (the override, when there is one).
pub open spec fn last_size(tokens: Seq<Seq<char>>) -> Option<(nat, nat)>
    decreases tokens.len(),
{
    if tokens.len() == 0 {
        None
    } else {
        match size_of_token(tokens.last()) {
            Some(p) => Some(p),
            None => last_size(tokens.drop_last()),
        }
    }
}

/// Reads the display size from `wm size`.
pub fn parse_display_size(stdout: &str) -> (r: Option<(u32, u32)>)
    ensures
        match last_size(text::words(stdout@)) {
            Some((w, h)) => r == Some((w as u32, h as u32)),
            None => r is None,
        },
{
    let cs = text::chars_of(stdout);
    let tokens = text::words_exec(&cs);
    let ghost ts = text::views(tokens@);
    let x: Vec<char> = vec!['x'];
    assert(x@ =~= seq!['x']);
    let mut i: usize = tokens.len();
    assert(ts.take(tokens@.len() as int) =~= ts);
    while i > 0
        invariant
            ts == text::views(tokens@),
            ts == text::words(stdout@),
            x@ == seq!['x'],
            i <= tokens@.len(),
            last_size(ts) == last_size(ts.take(i as int)),
        decreases i,
    {
        assert(ts.take(i as int).last() == tokens@[i - 1]@);
        let t = text::trim_exec(&tokens[i - 1]);
        if let Some((w, h)) = text::split_once_exec(&t, &x) {
            let w2 = trim_nondigits_exec(&w);
            let h2 = trim_nondigits_exec(&h);
            if let (Some(a), Some(b)) = (
                text::parse_uint_exec(&w2, 4294967295),
                text::parse_uint_exec(&h2, 4294967295),
            ) {
                return Some((a as u32, b as u32));
            }
        }
        assert(ts.take(i as int).drop_last() =~= ts.take(i - 1));
        i = i - 1;
    }
    None
}

/// The desktop client's option flags follow the valued options, in a
/// fixed order, each exactly when it was asked for: setting a flag adds
/// that one argument and changes nothing else.
pub proof fn lemma_launch_flags(
    serial: Seq<char>,
    max_size: Option<u32>,
    bit_rate: Option<Seq<char>>,
    off: bool,
    awake: bool,
    no_audio: bool,
)
    ensures
        launch_args(serial, max_size, bit_rate, off, awake, no_audio) == launch_args(
            serial,
            max_size,
            bit_rate,
            false,
            false,
            false,
        ) + (if off {
            seq!["--turn-screen-off"@]
        } else {
            Seq::empty()
        }) + (if awake {
            seq!["--stay-awake"@]
        } else {
            Seq::empty()
        }) + (if no_audio {
            seq!["--no-audio"@]
        } else {
            Seq::empty()
        }),
        launch_args(serial, max_size, bit_rate, off, awake, no_audio).len() == launch_args(
            serial,
            max_size,
            bit_rate,
            false,
            false,
            false,
        ).len() + (if off { 1int } else { 0int }) + (if awake { 1int } else { 0int }) + (if no_audio {
            1int
        } else {
            0int
        }),
        awake ==> launch_args(serial, max_size, bit_rate, off, awake, no_audio).contains("--stay-awake"@),
        off ==> launch_args(serial, max_size, bit_rate, off, awake, no_audio).contains("--turn-screen-off"@),
        no_audio ==> launch_args(serial, max_size, bit_rate, off, awake, no_audio).contains("--no-audio"@),
{
    let full = launch_args(serial, max_size, bit_rate, off, awake, no_audio);
    let base = launch_args(serial, max_size, bit_rate, false, false, false);
    let e = Seq::<Seq<char>>::empty();
    assert(base + e + e + e =~= base);
    let f1: Seq<Seq<char>> = if off { seq!["--turn-screen-off"@] } else { e };
    let f2: Seq<Seq<char>> = if awake { seq!["--stay-awake"@] } else { e };
    let f3: Seq<Seq<char>> = if no_audio { seq!["--no-audio"@] } else { e };
    assert(full =~= base + f1 + f2 + f3);
    if awake {
        assert(full[(base.len() + f1.len()) as int] == "--stay-awake"@);
    }
    if off {
        assert(full[base.len() as int] == "--turn-screen-off"@);
    }
    if no_audio {
        assert(full[(base.len() + f1.len() + f2.len()) as int] == "--no-audio"@);
    }
}

/// The desktop client's arguments start with the device serial; a non-zero
/// size limit adds `--max-size` and its decimal value right after it, and a
/// bit rate adds `--video-bit-rate` and its text after that; a zero or
/// absent size and an absent rate add nothing.
pub proof fn lemma_launch_values(
    serial: Seq<char>,
    max_size: Option<u32>,
    bit_rate: Option<Seq<char>>,
    off: bool,
    awake: bool,
    no_audio: bool,
)
    ensures
        launch_args(serial, max_size, bit_rate, off, awake, no_audio).take(2) == seq!["--serial"@, serial],
        launch_args(serial, max_size, bit_rate, off, awake, no_audio) == seq!["--serial"@, serial] + (
        match max_size {
            Some(m) => if m != 0 {
                seq!["--max-size"@, text::decimal(m as nat)]
            } else {
                Seq::empty()
            },
            None => Seq::empty(),
        }) + (match bit_rate {
            Some(b) => seq!["--video-bit-rate"@, b],
            None => Seq::empty(),
        }) + launch_args(serial, None, None, off, awake, no_audio).skip(2),
{
    let full = launch_args(serial, max_size, bit_rate, off, awake, no_audio);
    let plain = launch_args(serial, None, None, off, awake, no_audio);
    let e = Seq::<Seq<char>>::empty();
    let f1: Seq<Seq<char>> = if off { seq!["--turn-screen-off"@] } else { e };
    let f2: Seq<Seq<char>> = if awake { seq!["--stay-awake"@] } else { e };
    let f3: Seq<Seq<char>> = if no_audio { seq!["--no-audio"@] } else { e };
    assert(plain =~= seq!["--serial"@, serial] + f1 + f2 + f3);
    assert(plain.skip(2) =~= f1 + f2 + f3);
    assert(full.take(2) =~= seq!["--serial"@, serial]);
    let p1: Seq<Seq<char>> = match max_size {
        Some(m) => if m != 0 { seq!["--max-size"@, text::decimal(m as nat)] } else { e },
        None => e,
    };
    let p2: Seq<Seq<char>> = match bit_rate {
        Some(b) => seq!["--video-bit-rate"@, b],
        None => e,
    };
    assert(full =~= seq!["--serial"@, serial] + p1 + p2 + (f1 + f2 + f3));
}

} // verus!
