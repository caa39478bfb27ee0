//! Launching, stopping, clearing and uninstalling Android applications:
//! the adb invocations, the answers that confirm them, and the guard that
//! keeps system applications from being cleared or removed.
use crate::error::{is_error, ApiError, ProcessOutput};
use crate::models::{AndroidAppAction, AndroidAppOperationResult};
use crate::text;
use vstd::prelude::*;

verus! {

/// Partition roots whose packages belong to the system image.
pub open spec fn system_partition_path(p: Seq<char>) -> bool {
    ||| text::starts_with(p, "/system/"@)
    ||| text::starts_with(p, "/system_ext/"@)
    ||| text::starts_with(p, "/product/"@)
    ||| text::starts_with(p, "/vendor/"@)
    ||| text::starts_with(p, "/odm/"@)
    ||| text::starts_with(p, "/apex/"@)
}

/// Whether an APK path lies on one of the fixed system partitions.
pub fn is_system_partition_path(path: &str) -> (r: bool)
    ensures
        r == system_partition_path(path@),
{
    let cs = text::chars_of(path);
    text::starts_with_str(&cs, "/system/") || text::starts_with_str(&cs, "/system_ext/")
        || text::starts_with_str(&cs, "/product/") || text::starts_with_str(&cs, "/vendor/")
        || text::starts_with_str(&cs, "/odm/") || text::starts_with_str(&cs, "/apex/")
}

/// The adb arguments that perform `action` on `package` of device `serial`.
pub open spec fn action_args(action: AndroidAppAction, serial: Seq<char>, package: Seq<char>) -> Seq<
    Seq<char>,
> {
    seq!["-s"@, serial] + match action {
        AndroidAppAction::Launch => seq![
            "shell"@,
            "monkey"@,
            "-p"@,
            package,
            "-c"@,
            "android.intent.category.LAUNCHER"@,
            "1"@,
        ],
        AndroidAppAction::ForceStop => seq!["shell"@, "am"@, "force-stop"@, package],
        AndroidAppAction::ClearData => seq!["shell"@, "pm"@, "clear"@, package],
        AndroidAppAction::Uninstall => seq!["uninstall"@, package],
    }
}

/// The fixed adb argument list for an application action; the device and
/// the package are separate arguments and never part of a shell text.
pub fn action_arguments(action: AndroidAppAction, serial: &str, package_name: &str) -> (r: Vec<
    String,
>)
    ensures
        text::string_views(r@) == action_args(action, serial@, package_name@),
{
    let mut args: Vec<String> = Vec::new();
    text::push_str(&mut args, "-s");
    text::push_str(&mut args, serial);
    match action {
        AndroidAppAction::Launch => {
            text::push_str(&mut args, "shell");
            text::push_str(&mut args, "monkey");
            text::push_str(&mut args, "-p");
            text::push_str(&mut args, package_name);
            text::push_str(&mut args, "-c");
            text::push_str(&mut args, "android.intent.category.LAUNCHER");
            text::push_str(&mut args, "1");
        },
        AndroidAppAction::ForceStop => {
            text::push_str(&mut args, "shell");
            text::push_str(&mut args, "am");
            text::push_str(&mut args, "force-stop");
            text::push_str(&mut args, package_name);
        },
        AndroidAppAction::ClearData => {
            text::push_str(&mut args, "shell");
            text::push_str(&mut args, "pm");
            text::push_str(&mut args, "clear");
            text::push_str(&mut args, package_name);
        },
        AndroidAppAction::Uninstall => {
            text::push_str(&mut args, "uninstall");
            text::push_str(&mut args, package_name);
        },
    }
    assert(text::string_views(args@) =~= action_args(action, serial@, package_name@));
    args
}

pub open spec fn success_message(action: AndroidAppAction) -> Seq<char> {
    match action {
        AndroidAppAction::Launch => "Android application launched"@,
        AndroidAppAction::ForceStop => "Android application stopped"@,
        AndroidAppAction::ClearData => "Android application data cleared"@,
        AndroidAppAction::Uninstall => "Android application uninstalled"@,
    }
}

pub fn action_success_message(action: AndroidAppAction) -> (r: &'static str)
    ensures
        r@ == success_message(action),
{
    match action {
        AndroidAppAction::Launch => "Android application launched",
        AndroidAppAction::ForceStop => "Android application stopped",
        AndroidAppAction::ClearData => "Android application data cleared",
        AndroidAppAction::Uninstall => "Android application uninstalled",
    }
}

pub open spec fn failure_code(action: AndroidAppAction) -> Seq<char> {
    match action {
        AndroidAppAction::Launch => "android_app_not_launchable"@,
        AndroidAppAction::ForceStop => "android_app_stop_failed"@,
        AndroidAppAction::ClearData => "android_app_clear_failed"@,
        AndroidAppAction::Uninstall => "android_app_uninstall_failed"@,
    }
}

pub fn action_failure_code(action: AndroidAppAction) -> (r: &'static str)
    ensures
        r@ == failure_code(action),
{
    match action {
        AndroidAppAction::Launch => "android_app_not_launchable",
        AndroidAppAction::ForceStop => "android_app_stop_failed",
        AndroidAppAction::ClearData => "android_app_clear_failed",
        AndroidAppAction::Uninstall => "android_app_uninstall_failed",
    }
}

/// Whether the trimmed adb output confirms the action: a launch needs the
/// one injected launcher event and no abort report; clearing and
/// uninstalling need adb's `Success` line; a force-stop reports nothing.
pub open spec fn action_confirmed(action: AndroidAppAction, stdout: Seq<char>, stderr: Seq<char>) -> bool {
    let out = text::trim(stdout);
    let err = text::trim(stderr);
    match action {
        AndroidAppAction::Launch => {
            &&& text::has_trimmed_line(text::lines(out) + text::lines(err), "Events injected: 1"@)
            &&& !text::contains(text::lower(out), "monkey aborted"@)
            &&& !text::contains(text::lower(err), "monkey aborted"@)
        },
        AndroidAppAction::ForceStop => true,
        _ => text::has_trimmed_line(text::lines(out), "Success"@),
    }
}

/// The message reported when the action was not confirmed: the first
/// non-blank line of the error output, then of the standard output.
pub open spec fn failure_detail(stdout: Seq<char>, stderr: Seq<char>) -> Seq<char> {
    match text::first_nonblank(text::lines(text::trim(stderr)) + text::lines(text::trim(stdout))) {
        Some(line) => line,
        None => "Android did not confirm the requested application operation"@,
    }
}

/// Checks that adb confirmed the action.
pub fn verify_action_output(action: AndroidAppAction, output: &ProcessOutput) -> (r: Result<
    (),
    ApiError,
>)
    ensures
        action_confirmed(action, output.stdout@, output.stderr@) ==> r is Ok,
        !action_confirmed(action, output.stdout@, output.stderr@) ==> (r matches Err(e)
            && is_error(e, failure_code(action), failure_detail(output.stdout@, output.stderr@))),
{
    let out_chars = text::chars_of(output.stdout.as_str());
    let err_chars = text::chars_of(output.stderr.as_str());
    let out = text::trim_exec(&out_chars);
    let err = text::trim_exec(&err_chars);
    let out_lines = text::lines_exec(&out);
    let err_lines = text::lines_exec(&err);
    let succeeded = match action {
        AndroidAppAction::Launch => {
            let both = text::concat_lines(&out_lines, &err_lines);
            let injected = text::has_trimmed_line_exec(&both, "Events injected: 1");
            let out_lower = text::lower_exec(&out);
            let err_lower = text::lower_exec(&err);
            injected && !text::contains_str(&out_lower, "monkey aborted") && !text::contains_str(
                &err_lower,
                "monkey aborted",
            )
        },
        AndroidAppAction::ForceStop => true,
        _ => text::has_trimmed_line_exec(&out_lines, "Success"),
    };
    if succeeded {
        return Ok(());
    }
    let all = text::concat_lines(&err_lines, &out_lines);
    let code = action_failure_code(action);
    match text::first_nonblank_exec(&all) {
        Some(line) => Err(ApiError::with_message(code, text::string_of(&line))),
        None => Err(
            ApiError::new(code, "Android did not confirm the requested application operation"),
        ),
    }
}

/// Checks the answer of `adb get-state`: the device must report `device`.
pub fn check_online_state(stdout: &str) -> (r: Result<(), ApiError>)
    ensures
        text::trim(stdout@) == "device"@ ==> r is Ok,
        text::trim(stdout@) != "device"@ ==> (r matches Err(e) && is_error(
            e,
            "android_device_not_online"@,
            "The selected Android device is not online"@,
        )),
{
    let cs = text::chars_of(stdout);
    let t = text::trim_exec(&cs);
    if text::eq_str(&t, "device") {
        Ok(())
    } else {
        Err(ApiError::new("android_device_not_online", "The selected Android device is not online"))
    }
}

/// The absolute APK path named by one line of `pm path`, if any.
pub open spec fn apk_path_of_line(line: Seq<char>) -> Seq<Seq<char>> {
    match text::strip_prefix(text::trim(line), "package:"@) {
        Some(p) => if text::starts_with(p, seq!['/']) {
            seq![p]
        } else {
            Seq::empty()
        },
        None => Seq::empty(),
    }
}

/// The absolute APK paths listed by `pm path`, in order.
pub open spec fn apk_paths(ls: Seq<Seq<char>>) -> Seq<Seq<char>>
    decreases ls.len(),
{
    if ls.len() == 0 {
        Seq::empty()
    } else {
        apk_paths(ls.drop_last()) + apk_path_of_line(ls.last())
    }
}

pub fn installed_apk_paths(stdout: &str) -> (r: Vec<Vec<char>>)
    ensures
        text::views(r@) == apk_paths(text::lines(stdout@)),
{
    let ls = text::lines_of(stdout);
    let ghost vs = text::views(ls@);
    let mut r: Vec<Vec<char>> = Vec::new();
    let mut i: usize = 0;
    while i < ls.len()
        invariant
            vs == text::views(ls@),
            i <= ls@.len(),
            text::views(r@) == apk_paths(vs.take(i as int)),
        decreases ls@.len() - i,
    {
        let ghost before = r@;
        assert(vs.take(i + 1).drop_last() =~= vs.take(i as int));
        assert(vs.take(i + 1).last() == ls@[i as int]@);
        let t = text::trim_exec(&ls[i]);
        if let Some(p) = text::strip_prefix_str(&t, "package:") {
            if p.len() > 0 && p[0] == '/' {
                assert(p@.take(1) =~= seq!['/']);
                r.push(p);
                assert(text::views(r@) =~= text::views(before) + seq![p@]);
            } else {
                proof {
                    if text::starts_with(p@, seq!['/']) {
                        assert(p@.take(1)[0] == p@[0]);
                    }
                }
                assert(apk_path_of_line(ls@[i as int]@) =~= Seq::<Seq<char>>::empty());
                assert(text::views(r@) =~= text::views(before) + Seq::<Seq<char>>::empty());
            }
        } else {
            assert(text::views(r@) =~= text::views(before) + Seq::<Seq<char>>::empty());
        }
        i = i + 1;
    }
    assert(vs.take(ls@.len() as int) =~= vs);
    r
}

/// Reads `pm path`: the package must be installed at an absolute path; the
/// result tells whether one of its APKs lies on a system partition.
pub fn require_installed_package_output(stdout: &str) -> (r: Result<bool, ApiError>)
    ensures
        apk_paths(text::lines(stdout@)).len() == 0 ==> (r matches Err(e) && is_error(
            e,
            "android_package_not_found"@,
            "The selected package is not installed on the selected device"@,
        )),
        apk_paths(text::lines(stdout@)).len() > 0 ==> r == Ok::<bool, ApiError>(
            exists|i: int|
                0 <= i < apk_paths(text::lines(stdout@)).len() && system_partition_path(
                    #[trigger] apk_paths(text::lines(stdout@))[i],
                ),
        ),
{
    let paths = installed_apk_paths(stdout);
    let ghost ps = apk_paths(text::lines(stdout@));
    if paths.len() == 0 {
        return Err(
            ApiError::new(
                "android_package_not_found",
                "The selected package is not installed on the selected device",
            ),
        );
    }
    let mut i: usize = 0;
    while i < paths.len()
        invariant
            ps == text::views(paths@),
            ps == apk_paths(text::lines(stdout@)),
            i <= paths@.len(),
            forall|j: int| 0 <= j < i ==> !system_partition_path(#[trigger] ps[j]),
        decreases paths@.len() - i,
    {
        let s = text::string_of(&paths[i]);
        assert(ps[i as int] == paths@[i as int]@);
        if is_system_partition_path(s.as_str()) {
            assert(system_partition_path(ps[i as int]));
            return Ok(true);
        }
        i = i + 1;
    }
    Ok(false)
}

/// `pm list packages -s <package>` lists exactly this package.
pub open spec fn lists_package(ls: Seq<Seq<char>>, package: Seq<char>) -> bool {
    exists|i: int|
        0 <= i < ls.len() && text::strip_prefix(text::trim(#[trigger] ls[i]), "package:"@) == Some(
            package,
        )
}

/// Reads `pm list packages -s`: whether the package is a system package.
pub fn is_listed_system_package(stdout: &str, package_name: &str) -> (r: bool)
    ensures
        r == lists_package(text::lines(stdout@), package_name@),
{
    let ls = text::lines_of(stdout);
    let ghost vs = text::views(ls@);
    let pkg = text::chars_of(package_name);
    let mut i: usize = 0;
    while i < ls.len()
        invariant
            vs == text::views(ls@),
            vs == text::lines(stdout@),
            pkg@ == package_name@,
            i <= ls@.len(),
            forall|j: int|
                0 <= j < i ==> text::strip_prefix(text::trim(#[trigger] vs[j]), "package:"@)
                    != Some(package_name@),
        decreases ls@.len() - i,
    {
        let t = text::trim_exec(&ls[i]);
        assert(vs[i as int] == ls@[i as int]@);
        if let Some(rest) = text::strip_prefix_str(&t, "package:") {
            if text::seq_eq(&rest, &pkg) {
                assert(text::strip_prefix(text::trim(vs[i as int]), "package:"@) == Some(
                    package_name@,
                ));
                return true;
            }
        }
        i = i + 1;
    }
    false
}

/// Clearing data and uninstalling are refused for system applications.
pub fn check_action_allowed(action: AndroidAppAction, system_app: bool) -> (r: Result<(), ApiError>)
    ensures
        ((action == AndroidAppAction::ClearData || action == AndroidAppAction::Uninstall)
            && system_app) ==> (r matches Err(e) && is_error(
            e,
            "android_system_app_protected"@,
            "System applications cannot be cleared or uninstalled from Mobius"@,
        )),
        !((action == AndroidAppAction::ClearData || action == AndroidAppAction::Uninstall)
            && system_app) ==> r is Ok,
{
    let mutating = match action {
        AndroidAppAction::ClearData | AndroidAppAction::Uninstall => true,
        _ => false,
    };
    if mutating && system_app {
        return Err(
            ApiError::new(
                "android_system_app_protected",
                "System applications cannot be cleared or uninstalled from Mobius",
            ),
        );
    }
    Ok(())
}

/// The result reported after adb confirmed the action.
pub fn action_result(action: AndroidAppAction, serial: String, package_name: String) -> (r:
    AndroidAppOperationResult)
    ensures
        r.success,
        r.message@ == success_message(action),
        r.serial == serial,
        r.package_name == package_name,
        r.action == action,
{
    AndroidAppOperationResult {
        success: true,
        message: text::copy_str(action_success_message(action)),
        serial,
        package_name,
        action,
    }
}

} // verus!
