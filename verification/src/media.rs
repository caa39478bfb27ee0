//! Screenshots, screen previews and screen recordings: the image and video
//! checks, the fixed device commands, the recording process identity, and
//! the escalation that stops a recording.
use crate::encoding;
use crate::error::{is_error, ApiError, ErrorDetails, ProcessOutput};
use crate::models::{AndroidScreenFrameResult, IosScreenCapability};
use crate::packages::{le_value, read_le_u64, read_u32, u32_of, ByteOrder};
use crate::text;
use crate::validation;
use vstd::prelude::*;

verus! {

// ---------------------------------------------------------------------------
// iOS screen targets
// ---------------------------------------------------------------------------

/// Some line of the listing, trimmed, is exactly the identifier.
pub open spec fn lists_identifier(output: Seq<char>, expected: Seq<char>) -> bool {
    text::has_trimmed_line(text::lines(output), expected)
}

pub fn output_has_exact_identifier(output: &str, expected: &str) -> (r: bool)
    ensures
        r == lists_identifier(output@, expected@),
{
    let ls = text::lines_of(output);
    text::has_trimmed_line_exec(&ls, expected)
}

/// A screen target must be a valid identifier and not an SSH-only
/// endpoint; this is checked before any tool runs.
pub fn check_ios_screen_target(udid: &str) -> (r: Result<(), ApiError>)
    ensures
        validation::serial_check(udid@) matches Err((code, message)) ==> (r matches Err(e)
            && is_error(e, code, message)),
        validation::serial_check(udid@) is Ok && text::starts_with(udid@, "ios-ssh:"@) ==> (r matches Err(e)
            && is_error(
            e,
            "ios_screen_target_unavailable"@,
            "An SSH-only iOS endpoint has no paired screenshot service. Connect the device through USB/usbmux or an already paired lockdown network connection."@,
        )),
        validation::serial_check(udid@) is Ok && !text::starts_with(udid@, "ios-ssh:"@) ==> r is Ok,
{
    validation::serial(udid)?;
    let cs = text::chars_of(udid);
    if text::starts_with_str(&cs, "ios-ssh:") {
        return Err(
            ApiError::new(
                "ios_screen_target_unavailable",
                "An SSH-only iOS endpoint has no paired screenshot service. Connect the device through USB/usbmux or an already paired lockdown network connection.",
            ),
        );
    }
    Ok(())
}

/// The transport of a screen target: USB when `idevice_id -l` lists it,
/// else network when `idevice_id -n` answered and lists it.
pub fn ios_screen_transport(udid: &str, usb_stdout: &str, network_stdout: Option<&str>) -> (r:
    Result<&'static str, ApiError>)
    ensures
        lists_identifier(usb_stdout@, udid@) ==> (r matches Ok(t) && t@ == "usb"@),
        !lists_identifier(usb_stdout@, udid@) && (network_stdout matches Some(n) && lists_identifier(
            n@,
            udid@,
        )) ==> (r matches Ok(t) && t@ == "network"@),
        !lists_identifier(usb_stdout@, udid@) && !(network_stdout matches Some(n)
            && lists_identifier(n@, udid@)) ==> (r matches Err(e) && is_error(
            e,
            "ios_screen_target_unavailable"@,
            "This UDID is not present on an explicitly paired USB or network iOS connection."@,
        )),
{
    if output_has_exact_identifier(usb_stdout, udid) {
        return Ok("usb");
    }
    if let Some(n) = network_stdout {
        if output_has_exact_identifier(n, udid) {
            return Ok("network");
        }
    }
    Err(
        ApiError::new(
            "ios_screen_target_unavailable",
            "This UDID is not present on an explicitly paired USB or network iOS connection.",
        ),
    )
}

/// The capability report for a screen target: available with its
/// transport, or unavailable with the reason; other errors pass through.
pub fn screen_capability(detected: Result<&str, ApiError>) -> (r: Result<IosScreenCapability, ApiError>)
    ensures
        match detected {
            Ok(t) => r matches Ok(c) && c.available && c.transport@ == t@ && c.message@ == (if t@
                == "usb"@ {
                "The paired iOS device is available through USB/usbmux"@
            } else {
                "The paired iOS device is available through the network lockdown service"@
            }),
            Err(e) => if e.code@ == "ios_screen_target_unavailable"@ {
                r matches Ok(c) && !c.available && c.transport@ == "unavailable"@ && c.message
                    == e.message
            } else {
                r == Err::<IosScreenCapability, ApiError>(e)
            },
        },
{
    match detected {
        Ok(t) => {
            let message = if text::eq_str_str(t, "usb") {
                text::copy_str("The paired iOS device is available through USB/usbmux")
            } else {
                text::copy_str(
                    "The paired iOS device is available through the network lockdown service",
                )
            };
            Ok(IosScreenCapability { available: true, transport: text::copy_str(t), message })
        },
        Err(e) => {
            if text::eq_str_str(e.code.as_str(), "ios_screen_target_unavailable") {
                Ok(
                    IosScreenCapability {
                        available: false,
                        transport: text::copy_str("unavailable"),
                        message: e.message,
                    },
                )
            } else {
                Err(e)
            }
        },
    }
}

/// The arguments of `idevicescreenshot` for the transport and output file.
pub fn ios_screenshot_arguments(udid: &str, transport: &str, output_path: &str) -> (r: Vec<String>)
    ensures
        text::string_views(r@) == seq!["-u"@, udid@] + (if transport@ == "network"@ {
            seq!["-n"@]
        } else {
            Seq::empty()
        }) + seq![output_path@],
{
    let mut args: Vec<String> = Vec::new();
    text::push_str(&mut args, "-u");
    text::push_str(&mut args, udid);
    if text::eq_str_str(transport, "network") {
        text::push_str(&mut args, "-n");
    }
    text::push_str(&mut args, output_path);
    assert(text::string_views(args@) =~= seq!["-u"@, udid@] + (if transport@ == "network"@ {
        seq!["-n"@]
    } else {
        Seq::empty()
    }) + seq![output_path@]);
    args
}

/// The error of a failed iOS screenshot: a hint at the screenshot service
/// when the tool mentioned it, otherwise a connection hint; the cause is
/// kept as detail.
pub fn ios_capture_failure(error: &ApiError) -> (r: ApiError)
    ensures
        r.code@ == "ios_screen_capture_failed"@,
        r.message@ == (if text::contains(text::lower(error.message@), "screenshotr"@)
            || text::contains(text::lower(error.message@), "developer disk"@) || text::contains(
            text::lower(error.message@),
            "service"@,
        ) {
            "The iOS screenshot service is unavailable. Confirm device trust and mount the matching Developer Disk Image."@
        } else {
            "The paired iOS device did not return a screenshot. Check the USB/network connection, trust state, and Developer Disk Image."@
        }),
        r.details matches Some(ErrorDetails::Cause(c)) && c@ == error.code@,
{
    let cs = text::chars_of(error.message.as_str());
    let lower = text::lower_exec(&cs);
    let e = if text::contains_str(&lower, "screenshotr") || text::contains_str(
        &lower,
        "developer disk",
    ) || text::contains_str(&lower, "service") {
        ApiError::new(
            "ios_screen_capture_failed",
            "The iOS screenshot service is unavailable. Confirm device trust and mount the matching Developer Disk Image.",
        )
    } else {
        ApiError::new(
            "ios_screen_capture_failed",
            "The paired iOS device did not return a screenshot. Check the USB/network connection, trust state, and Developer Disk Image.",
        )
    };
    e.with_details(ErrorDetails::Cause(text::copy_string(&error.code)))
}

// ---------------------------------------------------------------------------
// PNG images
// ---------------------------------------------------------------------------

pub const MAX_SCREENSHOT_DIMENSION: u32 = 16384;

pub const MAX_SCREENSHOT_PIXELS: u64 = 40000000;

/// The PNG signature followed by an `IHDR` chunk.
pub open spec fn png_header_ok(b: Seq<u8>) -> bool {
    b.len() >= 24 && b[0] == 137 && b[1] == 80 && b[2] == 78 && b[3] == 71 && b[4] == 13 && b[5]
        == 10 && b[6] == 26 && b[7] == 10 && b[12] == 0x49 && b[13] == 0x48 && b[14] == 0x44
        && b[15] == 0x52
}

pub open spec fn png_width(b: Seq<u8>) -> nat {
    u32_of(b.subrange(16, 20), ByteOrder::Big)
}

pub open spec fn png_height(b: Seq<u8>) -> nat {
    u32_of(b.subrange(20, 24), ByteOrder::Big)
}

/// The image size is within the safety limits.
pub open spec fn dimensions_ok(w: nat, h: nat) -> bool {
    w != 0 && h != 0 && w <= MAX_SCREENSHOT_DIMENSION && h <= MAX_SCREENSHOT_DIMENSION && w * h
        <= MAX_SCREENSHOT_PIXELS
}

fn header_ok_exec(b: &[u8]) -> (r: bool)
    ensures
        r == png_header_ok(b@),
{
    b.len() >= 24 && b[0] == 137 && b[1] == 80 && b[2] == 78 && b[3] == 71 && b[4] == 13 && b[5]
        == 10 && b[6] == 26 && b[7] == 10 && b[12] == 0x49 && b[13] == 0x48 && b[14] == 0x44
        && b[15] == 0x52
}

fn png_size_exec(b: &[u8]) -> (r: (u32, u32))
    requires
        b@.len() >= 24,
    ensures
        r.0 as nat == png_width(b@),
        r.1 as nat == png_height(b@),
{
    let w = crate::packages::read_u32(&copy_range(b, 16, 20), ByteOrder::Big);
    let h = crate::packages::read_u32(&copy_range(b, 20, 24), ByteOrder::Big);
    match (w, h) {
        (Some(w), Some(h)) => (w, h),
        _ => (0, 0),
    }
}

fn copy_range(b: &[u8], a: usize, c: usize) -> (r: Vec<u8>)
    requires
        a <= c <= b@.len(),
    ensures
        r@ == b@.subrange(a as int, c as int),
{
    let mut r: Vec<u8> = Vec::new();
    let mut i: usize = a;
    while i < c
        invariant
            a <= i <= c <= b@.len(),
            r@ == b@.subrange(a as int, i as int),
        decreases c - i,
    {
        r.push(b[i]);
        i = i + 1;
        assert(r@ =~= b@.subrange(a as int, i as int));
    }
    r
}

fn dimensions_ok_exec(w: u32, h: u32) -> (r: bool)
    ensures
        r == dimensions_ok(w as nat, h as nat),
{
    if w == 0 || h == 0 || w > MAX_SCREENSHOT_DIMENSION || h > MAX_SCREENSHOT_DIMENSION {
        return false;
    }
    assert((w as nat) * (h as nat) <= 16384 * 16384) by (nonlinear_arith)
        requires
            w <= 16384,
            h <= 16384,
    ;
    (w as u64) * (h as u64) <= MAX_SCREENSHOT_PIXELS
}

/// Checks a PNG screen frame held in memory: its size, its header and its
/// dimensions; gives the width, height and size.
pub fn inspect_png_bytes(bytes: &[u8], maximum_bytes: u64) -> (r: Result<(u32, u32, u64), ApiError>)
    ensures
        (bytes@.len() < 24 || bytes@.len() > maximum_bytes) ==> (r matches Err(e) && is_error(
            e,
            "invalid_screenshot_image"@,
            "Device screen frame is empty, incomplete, or exceeds the supported size limit"@,
        )),
        (24 <= bytes@.len() <= maximum_bytes && !png_header_ok(bytes@)) ==> (r matches Err(e)
            && is_error(e, "invalid_screenshot_image"@, "Device screen frame is not a valid PNG image"@)),
        (24 <= bytes@.len() <= maximum_bytes && png_header_ok(bytes@) && !dimensions_ok(
            png_width(bytes@),
            png_height(bytes@),
        )) ==> (r matches Err(e) && is_error(
            e,
            "invalid_screenshot_dimensions"@,
            "Device screen frame dimensions exceed the supported safety limits"@,
        )),
        (24 <= bytes@.len() <= maximum_bytes && png_header_ok(bytes@) && dimensions_ok(
            png_width(bytes@),
            png_height(bytes@),
        )) ==> (r matches Ok((w, h, n)) && w as nat == png_width(bytes@) && h as nat == png_height(
            bytes@,
        ) && n as nat == bytes@.len()),
{
    let n = bytes.len();
    if n < 24 || n as u64 > maximum_bytes {
        return Err(
            ApiError::new(
                "invalid_screenshot_image",
                "Device screen frame is empty, incomplete, or exceeds the supported size limit",
            ),
        );
    }
    if !header_ok_exec(bytes) {
        return Err(
            ApiError::new("invalid_screenshot_image", "Device screen frame is not a valid PNG image"),
        );
    }
    let (w, h) = png_size_exec(bytes);
    if !dimensions_ok_exec(w, h) {
        return Err(
            ApiError::new(
                "invalid_screenshot_dimensions",
                "Device screen frame dimensions exceed the supported safety limits",
            ),
        );
    }
    Ok((w, h, n as u64))
}

pub const MAX_SCREENSHOT_BYTES: u64 = 67108864;

/// Checks a saved screenshot from its file size and its first bytes (at
/// most 24 are read).
pub fn check_screenshot_header(file_len: u64, header: &[u8]) -> (r: Result<(u32, u32, u64), ApiError>)
    ensures
        (file_len == 0 || file_len > MAX_SCREENSHOT_BYTES) ==> (r matches Err(e) && is_error(
            e,
            "invalid_screenshot_image"@,
            "Device screenshot is empty or exceeds the 64 MiB safety limit"@,
        )),
        (file_len != 0 && file_len <= MAX_SCREENSHOT_BYTES && header@.len() < 24) ==> (r matches Err(e)
            && is_error(
            e,
            "invalid_screenshot_image"@,
            "Device screenshot does not contain a complete PNG header"@,
        )),
        (file_len != 0 && file_len <= MAX_SCREENSHOT_BYTES && header@.len() >= 24
            && !png_header_ok(header@)) ==> (r matches Err(e) && is_error(
            e,
            "invalid_screenshot_image"@,
            "Device screenshot is not a valid PNG image"@,
        )),
        (file_len != 0 && file_len <= MAX_SCREENSHOT_BYTES && png_header_ok(header@)
            && !dimensions_ok(png_width(header@), png_height(header@))) ==> (r matches Err(e)
            && is_error(
            e,
            "invalid_screenshot_dimensions"@,
            "Device screenshot dimensions exceed the supported safety limits"@,
        )),
        (file_len != 0 && file_len <= MAX_SCREENSHOT_BYTES && png_header_ok(header@)
            && dimensions_ok(png_width(header@), png_height(header@))) ==> r == Ok::<
            (u32, u32, u64),
            ApiError,
        >((png_width(header@) as u32, png_height(header@) as u32, file_len)),
{
    if file_len == 0 || file_len > MAX_SCREENSHOT_BYTES {
        return Err(
            ApiError::new(
                "invalid_screenshot_image",
                "Device screenshot is empty or exceeds the 64 MiB safety limit",
            ),
        );
    }
    if header.len() < 24 {
        return Err(
            ApiError::new(
                "invalid_screenshot_image",
                "Device screenshot does not contain a complete PNG header",
            ),
        );
    }
    if !header_ok_exec(header) {
        return Err(
            ApiError::new("invalid_screenshot_image", "Device screenshot is not a valid PNG image"),
        );
    }
    let (w, h) = png_size_exec(header);
    if !dimensions_ok_exec(w, h) {
        return Err(
            ApiError::new(
                "invalid_screenshot_dimensions",
                "Device screenshot dimensions exceed the supported safety limits",
            ),
        );
    }
    Ok((w, h, file_len))
}

/// The inline preview of a PNG frame, as a `data:` URL.
pub fn frame_result(bytes: &[u8], width: u32, height: u32, size_bytes: u64, captured_at_ms: u128) -> (r:
    AndroidScreenFrameResult)
    ensures
        r.image_data_url@ == "data:image/png;base64,"@ + encoding::base64(bytes@, false, true),
        r.size_bytes == size_bytes && r.width == width && r.height == height,
        r.captured_at_ms == captured_at_ms,
{
    let data = encoding::encode_standard(bytes);
    AndroidScreenFrameResult {
        image_data_url: text::concat_strs("data:image/png;base64,", data.as_str()),
        size_bytes,
        width,
        height,
        captured_at_ms,
    }
}

/// The message of a screenshot by where it went.
pub open spec fn screenshot_message_spec(ios: bool, saved: bool, copied: bool) -> Seq<char> {
    if ios {
        if saved && copied {
            "iOS screenshot saved to the PC and copied to the clipboard"@
        } else if saved {
            "iOS screenshot saved to the PC"@
        } else if copied {
            "iOS screenshot copied to the clipboard"@
        } else {
            "iOS screenshot captured"@
        }
    } else {
        if saved && copied {
            "Screenshot saved to the PC and copied to the clipboard"@
        } else if saved {
            "Screenshot saved to the PC"@
        } else if copied {
            "Screenshot copied to the clipboard"@
        } else {
            "Screenshot captured"@
        }
    }
}

pub fn screenshot_message(ios: bool, saved: bool, copied: bool) -> (r: &'static str)
    ensures
        r@ == screenshot_message_spec(ios, saved, copied),
{
    if ios {
        if saved && copied {
            "iOS screenshot saved to the PC and copied to the clipboard"
        } else if saved {
            "iOS screenshot saved to the PC"
        } else if copied {
            "iOS screenshot copied to the clipboard"
        } else {
            "iOS screenshot captured"
        }
    } else {
        if saved && copied {
            "Screenshot saved to the PC and copied to the clipboard"
        } else if saved {
            "Screenshot saved to the PC"
        } else if copied {
            "Screenshot copied to the clipboard"
        } else {
            "Screenshot captured"
        }
    }
}

/// A screenshot must go somewhere: a PC directory, the clipboard, or both.
pub fn check_capture_destination(has_directory: bool, copy_to_clipboard: bool) -> (r: Result<
    (),
    ApiError,
>)
    ensures
        (!has_directory && !copy_to_clipboard) ==> (r matches Err(e) && is_error(
            e,
            "missing_capture_destination"@,
            "Choose a PC save directory, enable clipboard copy, or both"@,
        )),
        (has_directory || copy_to_clipboard) ==> r is Ok,
{
    if !has_directory && !copy_to_clipboard {
        return Err(
            ApiError::new(
                "missing_capture_destination",
                "Choose a PC save directory, enable clipboard copy, or both",
            ),
        );
    }
    Ok(())
}

// ---------------------------------------------------------------------------
// Device-side capture files
// ---------------------------------------------------------------------------

/// A unique token: process id, timestamp and sequence number.
pub fn capture_token(process_id: u32, timestamp: u64, sequence: u64) -> (r: String)
    ensures
        r@ == text::decimal(process_id as nat) + seq!['-'] + text::decimal(timestamp as nat)
            + seq!['-'] + text::decimal(sequence as nat),
{
    let mut c = text::decimal_exec(process_id as u64);
    c.push('-');
    let t = text::decimal_exec(timestamp);
    text::append(&mut c, &t);
    c.push('-');
    let s = text::decimal_exec(sequence);
    text::append(&mut c, &s);
    text::string_of(&c)
}

/// The device path of a temporary capture file below `/data/local/tmp`.
pub fn remote_capture_path(kind: &str, extension: &str, token: &str) -> (r: String)
    ensures
        r@ == "/data/local/tmp/mobius-"@ + kind@ + seq!['-'] + token@ + seq!['.'] + extension@,
{
    let mut c = text::chars_of("/data/local/tmp/mobius-");
    text::append_str(&mut c, kind);
    c.push('-');
    text::append_str(&mut c, token);
    c.push('.');
    text::append_str(&mut c, extension);
    text::string_of(&c)
}

/// The adb arguments that remove a temporary capture file, through `su`
/// (with a quoted path) for root captures.
pub fn cleanup_arguments(serial: &str, remote_path: &str, use_root: bool) -> (r: Vec<String>)
    ensures
        text::string_views(r@) == (if use_root {
            seq!["-s"@, serial@, "shell"@, "su"@, "-c"@, "rm -f -- "@ + validation::quote(remote_path@)]
        } else {
            seq!["-s"@, serial@, "shell"@, "rm"@, "-f"@, "--"@, remote_path@]
        }),
{
    let mut args: Vec<String> = Vec::new();
    text::push_str(&mut args, "-s");
    text::push_str(&mut args, serial);
    text::push_str(&mut args, "shell");
    if use_root {
        text::push_str(&mut args, "su");
        text::push_str(&mut args, "-c");
        let q = validation::quote_remote(remote_path);
        let c = text::concat_strs("rm -f -- ", q.as_str());
        text::push_str(&mut args, c.as_str());
        assert(text::string_views(args@) =~= seq![
            "-s"@,
            serial@,
            "shell"@,
            "su"@,
            "-c"@,
            "rm -f -- "@ + validation::quote(remote_path@),
        ]);
    } else {
        text::push_str(&mut args, "rm");
        text::push_str(&mut args, "-f");
        text::push_str(&mut args, "--");
        text::push_str(&mut args, remote_path);
        assert(text::string_views(args@) =~= seq![
            "-s"@,
            serial@,
            "shell"@,
            "rm"@,
            "-f"@,
            "--"@,
            remote_path@,
        ]);
    }
    args
}

/// The warning left when a device command did not finish cleanly, or none.
pub fn command_warning(outcome: Result<&ProcessOutput, &ApiError>, what: &str) -> (r: Option<String>)
    ensures
        match outcome {
            Ok(o) => if o.exit_code == Some(0i32) && !o.timed_out {
                r is None
            } else {
                r matches Some(w) && w@ == "Could not "@ + what@ + " (status "@ + text::debug_status(
                    o.exit_code,
                ) + ", timedOut="@ + text::bool_text(o.timed_out) + seq![')']
            },
            Err(e) => r matches Some(w) && w@ == "Could not "@ + what@ + ": "@ + e.message@,
        },
{
    match outcome {
        Ok(o) => {
            let ok = match o.exit_code {
                Some(c) => c == 0,
                None => false,
            };
            if ok && !o.timed_out {
                None
            } else {
                let mut c = text::chars_of("Could not ");
                text::append_str(&mut c, what);
                text::append_str(&mut c, " (status ");
                let st = text::debug_status_string(o.exit_code);
                text::append_str(&mut c, st.as_str());
                text::append_str(&mut c, ", timedOut=");
                let b = text::bool_string(o.timed_out);
                text::append_str(&mut c, b.as_str());
                c.push(')');
                Some(text::string_of(&c))
            }
        },
        Err(e) => {
            let mut c = text::chars_of("Could not ");
            text::append_str(&mut c, what);
            text::append_str(&mut c, ": ");
            text::append_str(&mut c, e.message.as_str());
            Some(text::string_of(&c))
        },
    }
}

/// `dumpsys power` reports a sleeping or dozing display.
pub fn display_sleeping(dumpsys_stdout: &str) -> (r: bool)
    ensures
        r == (text::has_trimmed_line(text::lines(dumpsys_stdout@), "mWakefulness=Asleep"@)
            || text::has_trimmed_line(text::lines(dumpsys_stdout@), "mWakefulness=Dozing"@)),
{
    let ls = text::lines_of(dumpsys_stdout);
    text::has_trimmed_line_exec(&ls, "mWakefulness=Asleep") || text::has_trimmed_line_exec(
        &ls,
        "mWakefulness=Dozing",
    )
}

/// `su -c id` granted root: some word is `uid=0(root)`.
pub fn root_granted(id_stdout: &str) -> (r: bool)
    ensures
        r == (exists|i: int|
            0 <= i < text::words(id_stdout@).len() && #[trigger] text::words(id_stdout@)[i]
                == "uid=0(root)"@),
{
    let cs = text::chars_of(id_stdout);
    let ws = text::words_exec(&cs);
    let ghost wv = text::views(ws@);
    let mut i: usize = 0;
    while i < ws.len()
        invariant
            wv == text::views(ws@),
            wv == text::words(id_stdout@),
            i <= ws@.len(),
            forall|j: int| 0 <= j < i ==> #[trigger] wv[j] != "uid=0(root)"@,
        decreases ws@.len() - i,
    {
        assert(wv[i as int] == ws@[i as int]@);
        if text::eq_str(&ws[i], "uid=0(root)") {
            return true;
        }
        i = i + 1;
    }
    false
}

// ---------------------------------------------------------------------------
// Screen recordings
// ---------------------------------------------------------------------------

pub open spec fn screenrecord_spec(output: Seq<char>, bit_rate: Option<u32>) -> Seq<char> {
    "screenrecord --time-limit 0"@ + (match bit_rate {
        Some(b) => " --bit-rate "@ + text::decimal(b as nat),
        None => Seq::empty(),
    }) + seq![' '] + output
}

/// The device command that starts an unlimited `screenrecord` in the
/// background and prints its marked process id, executable and `stat`
/// line only when the started process is the screen recorder (otherwise it
/// stops it and exits with status 76; status 75 when it died at once).
pub open spec fn launch_command_spec(remote_path: Seq<char>, log_path: Seq<char>, bit_rate: Option<u32>) -> Seq<char> {
    let output = validation::quote(remote_path);
    let log = validation::quote(log_path);
    "mobius_abort() { kill -2 \"$mobius_pid\" 2>/dev/null || true; sleep 1; if kill -0 \"$mobius_pid\" 2>/dev/null; then kill -15 \"$mobius_pid\" 2>/dev/null || true; fi; sleep 1; if kill -0 \"$mobius_pid\" 2>/dev/null; then kill -9 \"$mobius_pid\" 2>/dev/null || true; fi; }; rm -f "@
        + output + " "@ + log + "; nohup "@ + screenrecord_spec(output, bit_rate)
        + " </dev/null >"@ + log
        + " 2>&1 & mobius_pid=$!; sleep 1; if kill -0 \"$mobius_pid\" 2>/dev/null; then mobius_exe=$(readlink -f \"/proc/$mobius_pid/exe\" 2>/dev/null || true); mobius_stat=$(cat \"/proc/$mobius_pid/stat\" 2>/dev/null || true); case \"$mobius_exe\" in */screenrecord|screenrecord) if [ -n \"$mobius_stat\" ]; then printf '__MOBIUS_RECORDING_PID__=%s\\n' \"$mobius_pid\"; printf '__MOBIUS_RECORDING_EXE__=%s\\n' \"$mobius_exe\"; printf '__MOBIUS_RECORDING_STAT__=%s\\n' \"$mobius_stat\"; else mobius_abort; cat "@
        + log + " 2>/dev/null; exit 76; fi ;; *) mobius_abort; cat "@ + log
        + " 2>/dev/null; exit 76 ;; esac; else cat "@ + log + " 2>/dev/null; exit 75; fi"@
}

pub fn recording_launch_command(remote_path: &str, remote_log_path: &str, bit_rate: Option<u32>) -> (r:
    String)
    ensures
        r@ == launch_command_spec(remote_path@, remote_log_path@, bit_rate),
{
    let output = validation::quote_remote(remote_path);
    let log = validation::quote_remote(remote_log_path);
    let mut rec = text::chars_of("screenrecord --time-limit 0");
    if let Some(b) = bit_rate {
        text::append_str(&mut rec, " --bit-rate ");
        let d = text::decimal_exec(b as u64);
        text::append(&mut rec, &d);
    }
    rec.push(' ');
    text::append_str(&mut rec, output.as_str());
    let mut c = text::chars_of(
        "mobius_abort() { kill -2 \"$mobius_pid\" 2>/dev/null || true; sleep 1; if kill -0 \"$mobius_pid\" 2>/dev/null; then kill -15 \"$mobius_pid\" 2>/dev/null || true; fi; sleep 1; if kill -0 \"$mobius_pid\" 2>/dev/null; then kill -9 \"$mobius_pid\" 2>/dev/null || true; fi; }; rm -f ",
    );
    text::append_str(&mut c, output.as_str());
    text::append_str(&mut c, " ");
    text::append_str(&mut c, log.as_str());
    text::append_str(&mut c, "; nohup ");
    text::append(&mut c, &rec);
    text::append_str(&mut c, " </dev/null >");
    text::append_str(&mut c, log.as_str());
    text::append_str(
        &mut c,
        " 2>&1 & mobius_pid=$!; sleep 1; if kill -0 \"$mobius_pid\" 2>/dev/null; then mobius_exe=$(readlink -f \"/proc/$mobius_pid/exe\" 2>/dev/null || true); mobius_stat=$(cat \"/proc/$mobius_pid/stat\" 2>/dev/null || true); case \"$mobius_exe\" in */screenrecord|screenrecord) if [ -n \"$mobius_stat\" ]; then printf '__MOBIUS_RECORDING_PID__=%s\\n' \"$mobius_pid\"; printf '__MOBIUS_RECORDING_EXE__=%s\\n' \"$mobius_exe\"; printf '__MOBIUS_RECORDING_STAT__=%s\\n' \"$mobius_stat\"; else mobius_abort; cat ",
    );
    text::append_str(&mut c, log.as_str());
    text::append_str(&mut c, " 2>/dev/null; exit 76; fi ;; *) mobius_abort; cat ");
    text::append_str(&mut c, log.as_str());
    text::append_str(&mut c, " 2>/dev/null; exit 76 ;; esac; else cat ");
    text::append_str(&mut c, log.as_str());
    text::append_str(&mut c, " 2>/dev/null; exit 75; fi");
    proof {
        assert(rec@ =~= screenrecord_spec(output@, bit_rate));
    }
    assert(c@ =~= launch_command_spec(remote_path@, remote_log_path@, bit_rate));
    text::string_of(&c)
}

/// The value after `marker` on the first trimmed line that starts with it,
/// when that value is not empty.
pub open spec fn marked(ls: Seq<Seq<char>>, marker: Seq<char>) -> Option<Seq<char>>
    decreases ls.len(),
{
    if ls.len() == 0 {
        None
    } else {
        match text::strip_prefix(text::trim(ls[0]), marker) {
            Some(v) => if v.len() > 0 {
                Some(v)
            } else {
                None
            },
            None => marked(ls.drop_first(), marker),
        }
    }
}

pub fn marker_value(stdout: &str, marker: &str) -> (r: Option<String>)
    ensures
        text::opt_view(r) == marked(text::lines(stdout@), marker@),
{
    let ls = text::lines_of(stdout);
    let ghost vs = text::views(ls@);
    let mut i: usize = 0;
    assert(vs.skip(0) =~= vs);
    while i < ls.len()
        invariant
            vs == text::views(ls@),
            vs == text::lines(stdout@),
            i <= ls@.len(),
            marked(vs, marker@) == marked(vs.skip(i as int), marker@),
        decreases ls@.len() - i,
    {
        let t = text::trim_exec(&ls[i]);
        assert(vs.skip(i as int)[0] == ls@[i as int]@);
        if let Some(v) = text::strip_prefix_str(&t, marker) {
            if v.len() > 0 {
                return Some(text::string_of(&v));
            } else {
                return None;
            }
        }
        assert(vs.skip(i as int).drop_first() =~= vs.skip(i + 1));
        i = i + 1;
    }
    None
}

/// The marked process id of the started recorder, greater than 1.
pub open spec fn recording_pid(stdout: Seq<char>) -> Option<nat> {
    match marked(text::lines(stdout), "__MOBIUS_RECORDING_PID__="@) {
        Some(v) => match text::parse_uint(v, u32::MAX as nat) {
            Some(n) => if n > 1 {
                Some(n)
            } else {
                None
            },
            None => None,
        },
        None => None,
    }
}

pub fn parse_recording_pid(stdout: &str) -> (r: Result<u32, ApiError>)
    ensures
        match recording_pid(stdout@) {
            Some(n) => r == Ok::<u32, ApiError>(n as u32),
            None => r matches Err(e) && is_error(
                e,
                "recording_start_failed"@,
                "Android did not return a valid managed screenrecord PID"@,
            ),
        },
{
    let value = marker_value(stdout, "__MOBIUS_RECORDING_PID__=");
    let pid = match value {
        Some(v) => text::parse_uint_str(v.as_str(), 4294967295),
        None => None,
    };
    match pid {
        Some(n) => {
            if n > 1 {
                return Ok(n as u32);
            }
        },
        None => {},
    }
    Err(
        ApiError::new(
            "recording_start_failed",
            "Android did not return a valid managed screenrecord PID",
        ),
    )
}

/// The start time in a `/proc/<pid>/stat` line: the 20th field after the
/// parenthesised process name (which may contain spaces).
pub open spec fn start_time_of(stat: Seq<char>) -> Option<Seq<char>> {
    match text::rsplit_once(stat, ") "@) {
        Some((_, rest)) => if text::words(rest).len() > 19 {
            Some(text::words(rest)[19])
        } else {
            None
        },
        None => None,
    }
}

pub fn parse_process_start_time(stat: &str) -> (r: Result<String, ApiError>)
    ensures
        match start_time_of(stat@) {
            Some(t) => r matches Ok(s) && s@ == t,
            None => r matches Err(e) && is_error(
                e,
                "recording_identity_error"@,
                "Android returned malformed screenrecord process metadata"@,
            ),
        },
{
    let cs = text::chars_of(stat);
    if let Some((_, rest)) = text::rsplit_once_str(&cs, ") ") {
        let w = text::words_exec(&rest);
        if w.len() > 19 {
            assert(text::views(w@)[19] == w@[19]@);
            return Ok(text::string_of(&w[19]));
        }
    }
    Err(
        ApiError::new(
            "recording_identity_error",
            "Android returned malformed screenrecord process metadata",
        ),
    )
}

/// The executable and start time of a recording process.
#[derive(Debug, Clone)]
pub struct RecordingProcessIdentity {
    pub executable: String,
    pub start_time: String,
}

pub fn parse_recording_identity(stdout: &str) -> (r: Result<RecordingProcessIdentity, ApiError>)
    ensures
        match marked(text::lines(stdout@), "__MOBIUS_RECORDING_EXE__="@) {
            None => r matches Err(e) && is_error(
                e,
                "recording_identity_error"@,
                "Android did not return the managed screenrecord executable identity"@,
            ),
            Some(exe) => match marked(text::lines(stdout@), "__MOBIUS_RECORDING_STAT__="@) {
                None => r matches Err(e) && is_error(
                    e,
                    "recording_identity_error"@,
                    "Android did not return the managed screenrecord process metadata"@,
                ),
                Some(stat) => match start_time_of(stat) {
                    Some(t) => r matches Ok(id) && id.executable@ == exe && id.start_time@ == t,
                    None => r matches Err(e) && is_error(
                        e,
                        "recording_identity_error"@,
                        "Android returned malformed screenrecord process metadata"@,
                    ),
                },
            },
        },
{
    let exe = match marker_value(stdout, "__MOBIUS_RECORDING_EXE__=") {
        Some(e) => e,
        None => {
            return Err(
                ApiError::new(
                    "recording_identity_error",
                    "Android did not return the managed screenrecord executable identity",
                ),
            );
        },
    };
    let stat = match marker_value(stdout, "__MOBIUS_RECORDING_STAT__=") {
        Some(s) => s,
        None => {
            return Err(
                ApiError::new(
                    "recording_identity_error",
                    "Android did not return the managed screenrecord process metadata",
                ),
            );
        },
    };
    let start_time = parse_process_start_time(stat.as_str())?;
    Ok(RecordingProcessIdentity { executable: exe, start_time })
}

/// The started process is the system screen recorder.
pub fn is_screenrecord(executable: &str) -> (r: bool)
    ensures
        r == (match text::rsplit_once(executable@, seq!['/']) {
            Some((_, last)) => last == "screenrecord"@,
            None => executable@ == "screenrecord"@,
        }),
{
    let cs = text::chars_of(executable);
    let slash: Vec<char> = vec!['/'];
    assert(slash@ =~= seq!['/']);
    match text::rsplit_once_exec(&cs, &slash) {
        Some((_, last)) => text::eq_str(&last, "screenrecord"),
        None => text::eq_str(&cs, "screenrecord"),
    }
}

/// The probed process is still the recorder Mobius started.
pub open spec fn same_recording(identity: Option<RecordingProcessIdentity>, executable: Seq<char>, start_time: Seq<char>) -> bool {
    identity matches Some(id) && id.executable@ == executable && id.start_time@ == start_time
}

pub fn recording_process_matches(
    identity: &Option<RecordingProcessIdentity>,
    executable: &str,
    start_time: &str,
) -> (r: bool)
    ensures
        r == same_recording(*identity, executable@, start_time@),
{
    match identity {
        Some(id) => text::eq_str_str(id.executable.as_str(), executable) && text::eq_str_str(
            id.start_time.as_str(),
            start_time,
        ),
        None => false,
    }
}

/// The device command that signals the recorder only if its executable and
/// start time still match, in the same shell; it prints whether it signalled.
pub open spec fn signal_command_spec(pid: u32, executable: Seq<char>, start_time: Seq<char>, signal: Seq<char>) -> Seq<char> {
    let p = text::decimal(pid as nat);
    "set -f; mobius_exe=$(readlink -f /proc/"@ + p
        + "/exe 2>/dev/null || true); mobius_stat=$(cat /proc/"@ + p
        + "/stat 2>/dev/null || true); mobius_rest=${mobius_stat##*) }; set -- $mobius_rest; mobius_start=${20}; if [ \"$mobius_exe\" = "@
        + validation::quote(executable) + " ] && [ \"$mobius_start\" = "@ + validation::quote(
        start_time,
    ) + " ]; then if kill -"@ + signal + seq![' '] + p
        + " 2>/dev/null; then printf '__MOBIUS_RECORDING_SIGNALLED__\\n'; else exit 77; fi; else printf '__MOBIUS_RECORDING_SIGNAL_SKIPPED__\\n'; fi"@
}

pub fn recording_signal_command(pid: u32, executable: &str, process_start_time: &str, signal: &str) -> (r:
    String)
    ensures
        r@ == signal_command_spec(pid, executable@, process_start_time@, signal@),
{
    let p = text::decimal_exec(pid as u64);
    let qe = validation::quote_remote(executable);
    let qs = validation::quote_remote(process_start_time);
    let mut c = text::chars_of("set -f; mobius_exe=$(readlink -f /proc/");
    text::append(&mut c, &p);
    text::append_str(&mut c, "/exe 2>/dev/null || true); mobius_stat=$(cat /proc/");
    text::append(&mut c, &p);
    text::append_str(
        &mut c,
        "/stat 2>/dev/null || true); mobius_rest=${mobius_stat##*) }; set -- $mobius_rest; mobius_start=${20}; if [ \"$mobius_exe\" = ",
    );
    text::append_str(&mut c, qe.as_str());
    text::append_str(&mut c, " ] && [ \"$mobius_start\" = ");
    text::append_str(&mut c, qs.as_str());
    text::append_str(&mut c, " ]; then if kill -");
    text::append_str(&mut c, signal);
    c.push(' ');
    text::append(&mut c, &p);
    text::append_str(
        &mut c,
        " 2>/dev/null; then printf '__MOBIUS_RECORDING_SIGNALLED__\\n'; else exit 77; fi; else printf '__MOBIUS_RECORDING_SIGNAL_SKIPPED__\\n'; fi",
    );
    assert(c@ =~= signal_command_spec(pid, executable@, process_start_time@, signal@));
    text::string_of(&c)
}

/// The signals of the stop sequence, in escalation order.
#[derive(Debug, Clone, Copy, PartialEq, Eq, Structural)]
pub enum RecordingSignal {
    Interrupt,
    Terminate,
    Kill,
}

pub open spec fn signal_number(s: RecordingSignal) -> Seq<char> {
    match s {
        RecordingSignal::Interrupt => "2"@,
        RecordingSignal::Terminate => "15"@,
        RecordingSignal::Kill => "9"@,
    }
}

pub fn signal_number_text(s: RecordingSignal) -> (r: &'static str)
    ensures
        r@ == signal_number(s),
{
    match s {
        RecordingSignal::Interrupt => "2",
        RecordingSignal::Terminate => "15",
        RecordingSignal::Kill => "9",
    }
}

/// The signal command reported that it signalled the recorder.
pub fn signalled(stdout: &str) -> (r: bool)
    ensures
        r == text::has_trimmed_line(text::lines(stdout@), "__MOBIUS_RECORDING_SIGNALLED__"@),
{
    let ls = text::lines_of(stdout);
    text::has_trimmed_line_exec(&ls, "__MOBIUS_RECORDING_SIGNALLED__")
}

/// The next step of stopping a recording.
#[derive(Debug)]
pub enum StopStep {
    /// Send this signal (the command rechecks the identity first).
    Signal(RecordingSignal),
    /// Poll the identity up to this many times, 100 ms apart.
    Wait(RecordingSignal, usize),
    /// Stopping is over, with these warnings.
    Finished(Vec<String>),
    /// The recorder survived the whole sequence.
    Failed(ApiError),
}

pub open spec fn finished_with(s: StopStep, warning: Option<Seq<char>>) -> bool {
    s matches StopStep::Finished(w) && text::string_views(w@) == (match warning {
        Some(x) => seq![x],
        None => Seq::empty(),
    })
}

fn finished(warning: Option<&str>) -> (s: StopStep)
    ensures
        finished_with(
            s,
            match warning {
                Some(w) => Some(w@),
                None => None,
            },
        ),
{
    let mut w: Vec<String> = Vec::new();
    if let Some(x) = warning {
        text::push_str(&mut w, x);
    }
    assert(text::string_views(w@) =~= match warning {
        Some(x) => seq![x@],
        None => Seq::<Seq<char>>::empty(),
    });
    StopStep::Finished(w)
}

/// The first step: nothing to stop when the process is gone or its id was
/// reused; otherwise interrupt it (screenrecord finalizes on SIGINT).
pub fn stop_first_step(identity: &Option<RecordingProcessIdentity>, executable: &str, start_time: &str) -> (s:
    StopStep)
    ensures
        identity is None ==> finished_with(
            s,
            Some("The device recording process had already stopped before the stop request"@),
        ),
        identity is Some && !same_recording(*identity, executable@, start_time@) ==> finished_with(
            s,
            Some("The recorded PID was reused by another process and was left untouched"@),
        ),
        same_recording(*identity, executable@, start_time@) ==> s matches StopStep::Signal(
            RecordingSignal::Interrupt,
        ),
{
    if identity.is_none() {
        return finished(
            Some("The device recording process had already stopped before the stop request"),
        );
    }
    if !recording_process_matches(identity, executable, start_time) {
        return finished(Some("The recorded PID was reused by another process and was left untouched"));
    }
    StopStep::Signal(RecordingSignal::Interrupt)
}

pub open spec fn not_signalled_warning(s: RecordingSignal) -> Seq<char> {
    match s {
        RecordingSignal::Interrupt => "The managed recording process ended or changed identity before SIGINT and was left untouched"@,
        RecordingSignal::Terminate => "The managed recording process ended or changed identity before SIGTERM and was left untouched"@,
        RecordingSignal::Kill => "The managed recording process ended or changed identity before SIGKILL and was left untouched"@,
    }
}

/// Polls (100 ms apart) allowed after each signal: 6 s after SIGINT, 2 s
/// after SIGTERM, 0.5 s after SIGKILL.
pub open spec fn wait_polls(s: RecordingSignal) -> usize {
    match s {
        RecordingSignal::Interrupt => 60usize,
        RecordingSignal::Terminate => 20usize,
        RecordingSignal::Kill => 5usize,
    }
}

/// After a signal command: stop when it did not signal; otherwise wait.
pub fn stop_after_signal(signal: RecordingSignal, did_signal: bool) -> (s: StopStep)
    ensures
        !did_signal ==> finished_with(s, Some(not_signalled_warning(signal))),
        did_signal ==> s == StopStep::Wait(signal, wait_polls(signal)),
{
    if !did_signal {
        return match signal {
            RecordingSignal::Interrupt => finished(
                Some(
                    "The managed recording process ended or changed identity before SIGINT and was left untouched",
                ),
            ),
            RecordingSignal::Terminate => finished(
                Some(
                    "The managed recording process ended or changed identity before SIGTERM and was left untouched",
                ),
            ),
            RecordingSignal::Kill => finished(
                Some(
                    "The managed recording process ended or changed identity before SIGKILL and was left untouched",
                ),
            ),
        };
    }
    match signal {
        RecordingSignal::Interrupt => StopStep::Wait(signal, 60),
        RecordingSignal::Terminate => StopStep::Wait(signal, 20),
        RecordingSignal::Kill => StopStep::Wait(signal, 5),
    }
}

/// After waiting: done once the recorder is gone (with a warning when it
/// needed SIGTERM or SIGKILL), else escalate; a recorder that survives
/// SIGKILL is an error.
pub fn stop_after_wait(signal: RecordingSignal, stopped: bool) -> (s: StopStep)
    ensures
        stopped && signal == RecordingSignal::Interrupt ==> finished_with(s, None),
        stopped && signal == RecordingSignal::Terminate ==> finished_with(
            s,
            Some("Android screenrecord did not finish after SIGINT and required SIGTERM"@),
        ),
        stopped && signal == RecordingSignal::Kill ==> finished_with(
            s,
            Some("Android screenrecord required SIGKILL; the recording may be incomplete"@),
        ),
        !stopped && signal == RecordingSignal::Interrupt ==> s matches StopStep::Signal(
            RecordingSignal::Terminate,
        ),
        !stopped && signal == RecordingSignal::Terminate ==> s matches StopStep::Signal(
            RecordingSignal::Kill,
        ),
        !stopped && signal == RecordingSignal::Kill ==> (s matches StopStep::Failed(e) && is_error(
            e,
            "recording_stop_failed"@,
            "Android screenrecord remained alive after the managed stop sequence"@,
        )),
{
    match signal {
        RecordingSignal::Interrupt => if stopped {
            finished(None)
        } else {
            StopStep::Signal(RecordingSignal::Terminate)
        },
        RecordingSignal::Terminate => if stopped {
            finished(Some("Android screenrecord did not finish after SIGINT and required SIGTERM"))
        } else {
            StopStep::Signal(RecordingSignal::Kill)
        },
        RecordingSignal::Kill => if stopped {
            finished(Some("Android screenrecord required SIGKILL; the recording may be incomplete"))
        } else {
            StopStep::Failed(
                ApiError::new(
                    "recording_stop_failed",
                    "Android screenrecord remained alive after the managed stop sequence",
                ),
            )
        },
    }
}

/// Seconds allowed for pulling a finished recording: the transfer time of
/// its size at 256 KiB/s (or twice its duration when the size is unknown)
/// plus two minutes, and never less than five minutes.
pub open spec fn pull_timeout_spec(remote_size: Option<u64>, duration_secs: u64) -> nat {
    let estimate = match remote_size {
        Some(size) => (if size + 262143 > u64::MAX {
            u64::MAX as nat
        } else {
            (size + 262143) as nat
        }) / 262144,
        None => if duration_secs * 2 > u64::MAX {
            u64::MAX as nat
        } else {
            (duration_secs * 2) as nat
        },
    };
    let padded = if estimate + 120 > u64::MAX {
        u64::MAX as nat
    } else {
        estimate + 120
    };
    if padded < 300 {
        300
    } else {
        padded
    }
}

pub fn recording_pull_timeout_secs(remote_size: Option<u64>, duration_secs: u64) -> (r: u64)
    ensures
        r as nat == pull_timeout_spec(remote_size, duration_secs),
{
    let estimate: u64 = match remote_size {
        Some(size) => size.saturating_add(262143) / 262144,
        None => duration_secs.saturating_add(duration_secs),
    };
    let padded = estimate.saturating_add(120);
    if padded < 300 {
        300
    } else {
        padded
    }
}

/// The error mentions a denied permission in its message or its process
/// output.
pub open spec fn mentions_permission_denied(e: ApiError) -> bool {
    says_denied(e.message@) || match e.details {
        Some(ErrorDetails::Process(o)) => says_denied(o.program@) || says_denied(o.stdout@)
            || says_denied(o.stderr@),
        Some(ErrorDetails::Warnings(w)) => exists|i: int|
            0 <= i < w@.len() && says_denied(#[trigger] w@[i]@),
        Some(ErrorDetails::Cause(c)) => says_denied(c@),
        Some(ErrorDetails::UsbProviders { go_ios_code, go_ios_message, iproxy_code, iproxy_message }) =>
            says_denied(go_ios_code@) || says_denied(go_ios_message@) || says_denied(iproxy_code@)
            || says_denied(iproxy_message@),
        None => false,
    }
}

/// The text, lowered, holds "permission denied".
pub open spec fn says_denied(s: Seq<char>) -> bool {
    text::contains(text::lower(s), "permission denied"@)
}

fn lower_contains(s: &str, p: &str) -> (r: bool)
    ensures
        r == text::contains(text::lower(s@), p@),
{
    let cs = text::chars_of(s);
    let l = text::lower_exec(&cs);
    text::contains_str(&l, p)
}

#[verifier::loop_isolation(false)]
pub fn permission_denied(error: &ApiError) -> (r: bool)
    ensures
        r == mentions_permission_denied(*error),
{
    if lower_contains(error.message.as_str(), "permission denied") {
        return true;
    }
    match &error.details {
        Some(ErrorDetails::Process(o)) => lower_contains(o.program.as_str(), "permission denied")
            || lower_contains(o.stdout.as_str(), "permission denied") || lower_contains(
            o.stderr.as_str(),
            "permission denied",
        ),
        Some(ErrorDetails::Warnings(w)) => {
            let mut i: usize = 0;
            while i < w.len()
                invariant
                    i <= w@.len(),
                    forall|j: int|
                        0 <= j < i ==> !text::contains(
                            text::lower((#[trigger] w@[j])@),
                            "permission denied"@,
                        ),
                decreases w@.len() - i,
            {
                if lower_contains(w[i].as_str(), "permission denied") {
                    assert(says_denied(w@[i as int]@));
                    return true;
                }
                i = i + 1;
            }
            false
        },
        Some(ErrorDetails::Cause(c)) => lower_contains(c.as_str(), "permission denied"),
        Some(ErrorDetails::UsbProviders { go_ios_code, go_ios_message, iproxy_code, iproxy_message }) =>
            lower_contains(go_ios_code.as_str(), "permission denied") || lower_contains(
            go_ios_message.as_str(),
            "permission denied",
        ) || lower_contains(iproxy_code.as_str(), "permission denied") || lower_contains(
            iproxy_message.as_str(),
            "permission denied",
        ),
        None => false,
    }
}

/// The launch command failed with exit status 75.
pub open spec fn launch_exited_75(e: ApiError) -> bool {
    e.code@ == "process_failed"@ && match e.details {
        Some(ErrorDetails::Process(o)) => o.exit_code == Some(75i32),
        _ => false,
    }
}

/// A failed start may be retried through root: the shell reported a denied
/// permission, or the launch command exited with status 75 (the recorder
/// died at once).
pub fn recording_start_allows_root_retry(error: &ApiError) -> (r: bool)
    ensures
        r == (mentions_permission_denied(*error) || launch_exited_75(*error)),
{
    if permission_denied(error) {
        return true;
    }
    if !text::eq_str_str(error.code.as_str(), "process_failed") {
        return false;
    }
    match &error.details {
        Some(ErrorDetails::Process(o)) => match o.exit_code {
            Some(c) => c == 75,
            None => false,
        },
        _ => false,
    }
}

/// The device command that prints the size of the finished recording.
pub fn size_command(remote_path: &str) -> (r: String)
    ensures
        r@ == "wc -c < "@ + validation::quote(remote_path@),
{
    let q = validation::quote_remote(remote_path);
    text::concat_strs("wc -c < ", q.as_str())
}

/// The size printed by `wc -c`.
pub fn parse_recording_size(stdout: &str) -> (r: Result<u64, ApiError>)
    ensures
        match text::parse_uint(text::trim(stdout@), u64::MAX as nat) {
            Some(n) => r == Ok::<u64, ApiError>(n as u64),
            None => r matches Err(e) && is_error(
                e,
                "recording_size_error"@,
                "Android returned an invalid finalized recording size"@,
            ),
        },
{
    let cs = text::chars_of(stdout);
    let t = text::trim_exec(&cs);
    match text::parse_uint_exec(&t, u64::MAX) {
        Some(n) => Ok(n),
        None => Err(
            ApiError::new("recording_size_error", "Android returned an invalid finalized recording size"),
        ),
    }
}

// ---------------------------------------------------------------------------
// MP4 files
// ---------------------------------------------------------------------------

/// The walk over the top-level boxes of an MP4 file.
#[derive(Debug, Clone, Copy)]
pub struct Mp4Scan {
    pub position: u64,
    pub box_count: u64,
    pub has_ftyp: bool,
    pub has_moov: bool,
    pub has_media_data: bool,
}

pub const MAX_MP4_TOP_LEVEL_BOXES: u64 = 100000;

/// The scan of a recording of `file_size` bytes, before its first box; a
/// file under 24 bytes cannot be a recording.
pub fn mp4_scan_start(file_size: u64) -> (r: Result<Mp4Scan, ApiError>)
    ensures
        file_size >= 24 ==> r == Ok::<Mp4Scan, ApiError>(
            Mp4Scan { position: 0, box_count: 0, has_ftyp: false, has_moov: false, has_media_data: false },
        ),
        file_size < 24 ==> (r matches Err(e) && is_error(
            e,
            "invalid_screen_recording"@,
            "Device screen recording is empty or incomplete"@,
        )),
{
    if file_size < 24 {
        return Err(
            ApiError::new("invalid_screen_recording", "Device screen recording is empty or incomplete"),
        );
    }
    Ok(Mp4Scan { position: 0, box_count: 0, has_ftyp: false, has_moov: false, has_media_data: false })
}

pub open spec fn kind_is(header: Seq<u8>, a: u8, b: u8, c: u8, d: u8) -> bool {
    header[4] == a && header[5] == b && header[6] == c && header[7] == d
}

/// The size of the box and of its header: the 32-bit size field, the rest of
/// the file when it is 0, or the 64-bit extended size when it is 1 (`None`
/// when the extended size is missing).
pub open spec fn box_extent(header: Seq<u8>, extended: Option<Seq<u8>>, remaining: nat) -> Option<(nat, nat)> {
    let short = u32_of(header.take(4), ByteOrder::Big);
    if short == 0 {
        Some((remaining, 8))
    } else if short == 1 {
        match extended {
            Some(x) => if remaining < 16 { None } else { Some((le_value(x.reverse()), 16)) },
            None => None,
        }
    } else {
        Some((short, 8))
    }
}

/// One box of the walk: the scan after it, or the message of the error.
pub open spec fn mp4_box(scan: Mp4Scan, file_size: u64, header: Seq<u8>, extended: Option<Seq<u8>>) -> Result<
    Mp4Scan,
    Seq<char>,
> {
    let remaining = (file_size - scan.position) as nat;
    if scan.box_count + 1 > MAX_MP4_TOP_LEVEL_BOXES || remaining < 8 {
        Err("Device screen recording contains an incomplete MP4 box table"@)
    } else {
        match box_extent(header, extended, remaining) {
            None => Err("Device screen recording contains an incomplete extended MP4 box"@),
            Some((size, header_size)) => if size < header_size || size > remaining {
                Err("Device screen recording contains a truncated or malformed MP4 box"@)
            } else {
                let payload = size - header_size;
                Ok(
                    Mp4Scan {
                        position: (scan.position + size) as u64,
                        box_count: (scan.box_count + 1) as u64,
                        has_ftyp: scan.has_ftyp || (kind_is(header, 0x66, 0x74, 0x79, 0x70) && payload
                            >= 4),
                        has_moov: scan.has_moov || (kind_is(header, 0x6d, 0x6f, 0x6f, 0x76) && payload
                            > 0),
                        has_media_data: scan.has_media_data || (kind_is(header, 0x6d, 0x64, 0x61, 0x74)
                            && payload > 0),
                    },
                )
            },
        }
    }
}

pub open spec fn bytes_view(b: Option<&[u8]>) -> Option<Seq<u8>> {
    match b {
        Some(x) => Some(x@),
        None => None,
    }
}

/// The box whose 8-byte header was read at `scan.position`, with the
/// 8 bytes after the header as `extended` when its size field is 1.
pub fn mp4_step(scan: Mp4Scan, file_size: u64, header: &[u8], extended: Option<&[u8]>) -> (r: Result<
    Mp4Scan,
    ApiError,
>)
    requires
        scan.position < file_size,
        header@.len() == 8,
        extended matches Some(x) ==> x@.len() == 8,
    ensures
        match mp4_box(scan, file_size, header@, bytes_view(extended)) {
            Ok(n) => r == Ok::<Mp4Scan, ApiError>(n),
            Err(m) => r matches Err(e) && is_error(e, "invalid_screen_recording"@, m),
        },
        r matches Ok(n) ==> scan.position < n.position <= file_size,
{
    let remaining = file_size - scan.position;
    if scan.box_count >= MAX_MP4_TOP_LEVEL_BOXES || remaining < 8 {
        return Err(
            ApiError::new(
                "invalid_screen_recording",
                "Device screen recording contains an incomplete MP4 box table",
            ),
        );
    }
    let head = copy_range(header, 0, 4);
    assert(head@ == header@.take(4));
    let short = match read_u32(&head, ByteOrder::Big) {
        Some(v) => v,
        None => 0,
    };
    let (box_size, header_size): (u64, u64) = if short == 0 {
        (remaining, 8)
    } else if short == 1 {
        match extended {
            Some(x) => {
                if remaining < 16 {
                    return Err(
                        ApiError::new(
                            "invalid_screen_recording",
                            "Device screen recording contains an incomplete extended MP4 box",
                        ),
                    );
                }
                let mut reversed: Vec<u8> = Vec::new();
                let mut i: usize = 8;
                while i > 0
                    invariant
                        i <= 8,
                        x@.len() == 8,
                        reversed@ == x@.reverse().take(8 - i),
                    decreases i,
                {
                    reversed.push(x[i - 1]);
                    i = i - 1;
                    assert(reversed@ =~= x@.reverse().take(8 - i));
                }
                assert(reversed@ =~= x@.reverse());
                match read_le_u64(&reversed) {
                    Some(v) => (v, 16),
                    None => (0, 16),
                }
            },
            None => {
                return Err(
                    ApiError::new(
                        "invalid_screen_recording",
                        "Device screen recording contains an incomplete extended MP4 box",
                    ),
                );
            },
        }
    } else {
        (short as u64, 8)
    };
    if box_size < header_size || box_size > remaining {
        return Err(
            ApiError::new(
                "invalid_screen_recording",
                "Device screen recording contains a truncated or malformed MP4 box",
            ),
        );
    }
    let payload = box_size - header_size;
    let k0 = header[4];
    let k1 = header[5];
    let k2 = header[6];
    let k3 = header[7];
    let ftyp = k0 == 0x66 && k1 == 0x74 && k2 == 0x79 && k3 == 0x70 && payload >= 4;
    let moov = k0 == 0x6d && k1 == 0x6f && k2 == 0x6f && k3 == 0x76 && payload > 0;
    let mdat = k0 == 0x6d && k1 == 0x64 && k2 == 0x61 && k3 == 0x74 && payload > 0;
    Ok(
        Mp4Scan {
            position: scan.position + box_size,
            box_count: scan.box_count + 1,
            has_ftyp: scan.has_ftyp || ftyp,
            has_moov: scan.has_moov || moov,
            has_media_data: scan.has_media_data || mdat,
        },
    )
}

/// A complete recording has file-type, movie and media-data boxes.
pub fn mp4_finish(scan: Mp4Scan, file_size: u64) -> (r: Result<u64, ApiError>)
    ensures
        (scan.has_ftyp && scan.has_moov && scan.has_media_data) ==> r == Ok::<u64, ApiError>(
            file_size,
        ),
        !(scan.has_ftyp && scan.has_moov && scan.has_media_data) ==> (r matches Err(e) && is_error(
            e,
            "invalid_screen_recording"@,
            "Device screen recording is missing required MP4 metadata or media data"@,
        )),
{
    if !scan.has_ftyp || !scan.has_moov || !scan.has_media_data {
        return Err(
            ApiError::new(
                "invalid_screen_recording",
                "Device screen recording is missing required MP4 metadata or media data",
            ),
        );
    }
    Ok(file_size)
}

/// The header of the box at `p`, and the 8 bytes after it where the file
/// holds them.
pub open spec fn header_at(file: Seq<u8>, p: int) -> Seq<u8> {
    file.subrange(p, p + 8)
}

pub open spec fn extended_at(file: Seq<u8>, p: int) -> Option<Seq<u8>> {
    if p + 16 <= file.len() {
        Some(file.subrange(p + 8, p + 16))
    } else {
        None
    }
}

/// The walk over the top-level boxes of a whole file, box after box, until
/// the boxes end exactly at the end of the file or one is malformed.
pub open spec fn mp4_walk(scan: Mp4Scan, file: Seq<u8>) -> Result<Mp4Scan, Seq<char>>
    decreases file.len() - scan.position,
{
    if scan.position >= file.len() {
        Ok(scan)
    } else if file.len() - scan.position < 8 || file.len() > u64::MAX {
        Err("Device screen recording contains an incomplete MP4 box table"@)
    } else {
        match mp4_box(scan, file.len() as u64, header_at(file, scan.position as int), extended_at(file, scan.position as int)) {
            Err(m) => Err(m),
            Ok(n) => if n.position > scan.position {
                mp4_walk(n, file)
            } else {
                Ok(n)
            },
        }
    }
}

pub open spec fn mp4_start() -> Mp4Scan {
    Mp4Scan { position: 0, box_count: 0, has_ftyp: false, has_moov: false, has_media_data: false }
}

/// What the inspection of a whole recording gives: its size when its boxes
/// tile the file and include the file-type, movie and media-data boxes.
pub open spec fn mp4_result(file: Seq<u8>) -> Result<nat, Seq<char>> {
    if file.len() < 24 {
        Err("Device screen recording is empty or incomplete"@)
    } else {
        match mp4_walk(mp4_start(), file) {
            Err(m) => Err(m),
            Ok(s) => if s.has_ftyp && s.has_moov && s.has_media_data {
                Ok(file.len())
            } else {
                Err("Device screen recording is missing required MP4 metadata or media data"@)
            },
        }
    }
}

/// Inspects a recording held in memory, walking its boxes with `mp4_step`.
pub fn inspect_mp4_bytes(bytes: &[u8]) -> (r: Result<u64, ApiError>)
    ensures
        match mp4_result(bytes@) {
            Ok(n) => r == Ok::<u64, ApiError>(n as u64),
            Err(m) => r matches Err(e) && is_error(e, "invalid_screen_recording"@, m),
        },
{
    let n = bytes.len();
    let size = n as u64;
    let mut scan = mp4_scan_start(size)?;
    let ghost file = bytes@;
    while scan.position < size
        invariant
            size == file.len(),
            n == file.len(),
            file == bytes@,
            file.len() >= 24,
            scan.position <= size,
            mp4_walk(scan, file) == mp4_walk(mp4_start(), file),
        decreases size - scan.position,
    {
        if size - scan.position < 8 {
            assert(mp4_walk(scan, file) == Err::<Mp4Scan, Seq<char>>(
                "Device screen recording contains an incomplete MP4 box table"@,
            ));
            return Err(
                ApiError::new(
                    "invalid_screen_recording",
                    "Device screen recording contains an incomplete MP4 box table",
                ),
            );
        }
        assert(scan.position <= bytes@.len());
        let at = scan.position as usize;
        assert(at == scan.position);
        let header = copy_range(bytes, at, at + 8);
        let extended: Option<Vec<u8>> = if bytes.len() - at >= 16 {
            Some(copy_range(bytes, at + 8, at + 16))
        } else {
            None
        };
        assert(header@ == header_at(file, at as int));
        let ext_ref: Option<&[u8]> = match &extended {
            Some(x) => Some(x.as_slice()),
            None => None,
        };
        assert(bytes_view(ext_ref) == extended_at(file, at as int));
        let ghost walked = mp4_box(scan, size, header@, bytes_view(ext_ref));
        match mp4_step(scan, size, header.as_slice(), ext_ref) {
            Ok(next) => {
                assert(mp4_walk(scan, file) == mp4_walk(next, file));
                scan = next;
            },
            Err(e) => {
                assert(mp4_walk(scan, file) == Err::<Mp4Scan, Seq<char>>(walked->Err_0));
                return Err(e);
            },
        }
    }
    assert(mp4_walk(scan, file) == Ok::<Mp4Scan, Seq<char>>(scan));
    mp4_finish(scan, size)
}

pub const MIN_RECORDING_BIT_RATE: u32 = 100000;
pub const MAX_RECORDING_BIT_RATE: u32 = 100000000;

/// A requested recording bit rate lies between 100 Kbit/s and 100 Mbit/s.
pub fn check_recording_bit_rate(bit_rate: Option<u32>) -> (r: Result<(), ApiError>)
    ensures
        (bit_rate matches Some(b) && (b < MIN_RECORDING_BIT_RATE || b > MAX_RECORDING_BIT_RATE)) ==> (r matches Err(
            e,
        ) && is_error(
            e,
            "invalid_recording_bit_rate"@,
            "Recording bit rate must be between 100 Kbit/s and 100 Mbit/s"@,
        )),
        !(bit_rate matches Some(b) && (b < MIN_RECORDING_BIT_RATE || b > MAX_RECORDING_BIT_RATE)) ==> r is Ok,
{
    match bit_rate {
        Some(b) => {
            if b < MIN_RECORDING_BIT_RATE || b > MAX_RECORDING_BIT_RATE {
                return Err(
                    ApiError::new(
                        "invalid_recording_bit_rate",
                        "Recording bit rate must be between 100 Kbit/s and 100 Mbit/s",
                    ),
                );
            }
            Ok(())
        },
        None => Ok(()),
    }
}

/// A recording may start unless the application is exiting or the device
/// is being recorded already.
pub fn check_recording_slot(shutting_down: bool, already_recording: bool) -> (r: Result<(), ApiError>)
    ensures
        shutting_down ==> (r matches Err(e) && is_error(
            e,
            "app_shutting_down"@,
            "Mobius is exiting and cannot start a screen recording"@,
        )),
        !shutting_down && already_recording ==> (r matches Err(e) && is_error(
            e,
            "recording_already_active"@,
            "Mobius is already recording this Android device"@,
        )),
        !shutting_down && !already_recording ==> r is Ok,
{
    if shutting_down {
        return Err(ApiError::new("app_shutting_down", "Mobius is exiting and cannot start a screen recording"));
    }
    if already_recording {
        return Err(ApiError::new("recording_already_active", "Mobius is already recording this Android device"));
    }
    Ok(())
}

} // verus!
