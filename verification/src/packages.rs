//! Installing and inspecting application packages: reading package-manager
//! listings, the native-library and Mach-O architectures of APK and IPA
//! files, choosing an icon, and the arguments of the installers.
use crate::error::{is_error, ApiError};
use crate::models::{ExportedAndroidFile, InstallMobilePackageRequest, InstalledApp, MobilePlatform, PackageIcon};
use crate::paths;
use crate::text;
use crate::validation;
use vstd::prelude::*;

verus! {

// ---------------------------------------------------------------------------
// Package-manager listings
// ---------------------------------------------------------------------------

/// The value after `prefix` in the last field that starts with it.
pub open spec fn last_prefixed(fields: Seq<Seq<char>>, prefix: Seq<char>) -> Option<Seq<char>>
    decreases fields.len(),
{
    if fields.len() == 0 {
        None
    } else {
        match text::strip_prefix(fields.last(), prefix) {
            Some(v) => Some(v),
            None => last_prefixed(fields.drop_last(), prefix),
        }
    }
}

fn last_prefixed_exec(fields: &[Vec<char>], start: usize, prefix: &str) -> (r: Option<Vec<char>>)
    requires
        start <= fields@.len(),
    ensures
        match r {
            Some(v) => last_prefixed(text::views(fields@).skip(start as int), prefix@) == Some(v@),
            None => last_prefixed(text::views(fields@).skip(start as int), prefix@) is None,
        },
{
    let ghost fs = text::views(fields@).skip(start as int);
    let mut i: usize = fields.len();
    assert(fs.take(fields@.len() - start) =~= fs);
    while i > start
        invariant
            start <= i <= fields@.len(),
            fs == text::views(fields@).skip(start as int),
            last_prefixed(fs, prefix@) == last_prefixed(fs.take(i - start), prefix@),
        decreases i,
    {
        assert(fs.take(i - start).last() == fields@[i - 1]@);
        match text::strip_prefix_str(&fields[i - 1], prefix) {
            Some(v) => {
                return Some(v);
            },
            None => {},
        }
        assert(fs.take(i - start).drop_last() =~= fs.take(i - 1 - start));
        i = i - 1;
    }
    None
}

/// APK paths on the system image partitions.
pub open spec fn system_apk_path(p: Seq<char>) -> bool {
    ||| text::starts_with(p, "/system/"@)
    ||| text::starts_with(p, "/system_ext/"@)
    ||| text::starts_with(p, "/product/"@)
    ||| text::starts_with(p, "/vendor/"@)
    ||| text::starts_with(p, "/apex/"@)
}

/// The APK path and package of a `pm list packages -f` row
/// (`package:<apk>=<package>`), when the package identifier is valid.
pub open spec fn installed_row(line: Seq<char>) -> Option<(Seq<char>, Seq<char>)> {
    let f = text::words(line);
    if f.len() == 0 {
        None
    } else {
        match text::strip_prefix(f[0], "package:"@) {
            None => None,
            Some(pf) => match text::rsplit_once(pf, seq!['=']) {
                None => None,
                Some((apk, pkg)) => if validation::package_name_check(pkg) is Ok {
                    Some((apk, pkg))
                } else {
                    None
                },
            },
        }
    }
}

/// The last `=` of `s` at or before `i` is at `k`.
proof fn lemma_rfind_last_equals(s: Seq<char>, k: int, i: int)
    requires
        0 <= k <= i < s.len(),
        s[k] == '=',
        forall|j: int| k < j <= i ==> s[j] != '=',
    ensures
        text::rfind_upto(s, seq!['='], i) == Some(k),
    decreases i - k,
{
    if i == k {
        assert(s.subrange(k, k + 1) =~= seq!['=']);
    } else {
        assert(!text::matches_at(s, seq!['='], i)) by {
            if text::matches_at(s, seq!['='], i) {
                assert(s.subrange(i, i + 1)[0] == s[i]);
            }
        }
        lemma_rfind_last_equals(s, k, i - 1);
    }
}

/// A `pm list packages -f` row `package:<apk>=<package>` is split at its
/// last `=`: whatever `=` characters the APK path holds, a valid package
/// name without `=` is read whole, and the path is everything before it.
pub proof fn lemma_installed_row_splits_at_last_equals(line: Seq<char>, apk: Seq<char>, pkg: Seq<char>)
    requires
        text::words(line).len() > 0,
        text::words(line)[0] == "package:"@ + apk + seq!['='] + pkg,
        !pkg.contains('='),
        validation::package_name_check(pkg) is Ok,
    ensures
        installed_row(line) == Some((apk, pkg)),
        forall|app: InstalledApp| #[trigger] installed_app_from(app, line) ==> app.package_name@ == pkg
            && app.apk_path@ == apk,
{
    reveal_strlit("package:");
    let w0 = text::words(line)[0];
    let pf = apk + seq!['='] + pkg;
    assert(w0 =~= "package:"@ + pf);
    assert(w0.take(8) =~= "package:"@);
    assert(w0.skip(8) =~= pf);
    assert(text::strip_prefix(w0, "package:"@) == Some(pf));
    let k = apk.len() as int;
    assert(pf[k] == '=');
    assert forall|j: int| k < j <= pf.len() - 1 implies pf[j] != '=' by {
        assert(pf[j] == pkg[j - k - 1]);
        if pkg[j - k - 1] == '=' {
            assert(pkg.contains('='));
        }
    }
    lemma_rfind_last_equals(pf, k, pf.len() - 1);
    assert(text::rfind(pf, seq!['=']) == Some(k));
    assert(pf.take(k) =~= apk);
    assert(pf.skip(k + 1) =~= pkg);
}

/// `app` is the installed application described by a valid row `line`.
pub open spec fn installed_app_from(app: InstalledApp, line: Seq<char>) -> bool {
    let f = text::words(line);
    let (apk, pkg) = installed_row(line)->0;
    &&& app.package_name@ == pkg
    &&& app.apk_path@ == apk
    &&& app.uid == (match last_prefixed(f.skip(1), "uid:"@) {
        Some(v) => match text::parse_uint(v, u32::MAX as nat) {
            Some(n) => Some(n as u32),
            None => None,
        },
        None => None,
    })
    &&& text::opt_view(app.version_code) == last_prefixed(f.skip(1), "versionCode:"@)
    &&& app.system == system_apk_path(apk)
}

/// Reads one row of `pm list packages -f -U [--show-versioncode]`.
pub fn parse_installed_app(line: &str) -> (r: Option<InstalledApp>)
    ensures
        match r {
            Some(app) => installed_row(line@) is Some && installed_app_from(app, line@),
            None => installed_row(line@) is None,
        },
{
    let cs = text::chars_of(line);
    let f = text::words_exec(&cs);
    let ghost fv = text::views(f@);
    if f.len() == 0 {
        return None;
    }
    assert(fv[0] == f@[0]@);
    let pf = match text::strip_prefix_str(&f[0], "package:") {
        Some(p) => p,
        None => {
            return None;
        },
    };
    let eq: Vec<char> = vec!['='];
    assert(eq@ =~= seq!['=']);
    let (apk, pkg) = match text::rsplit_once_exec(&pf, &eq) {
        Some(parts) => parts,
        None => {
            return None;
        },
    };
    let pkg_s = text::string_of(&pkg);
    if validation::package_name(pkg_s.as_str()).is_err() {
        return None;
    }
    let uid = match last_prefixed_exec(&f, 1, "uid:") {
        Some(v) => match text::parse_uint_exec(&v, 4294967295) {
            Some(n) => Some(n as u32),
            None => None,
        },
        None => None,
    };
    let version_code = match last_prefixed_exec(&f, 1, "versionCode:") {
        Some(v) => Some(text::string_of(&v)),
        None => None,
    };
    let system = text::starts_with_str(&apk, "/system/") || text::starts_with_str(
        &apk,
        "/system_ext/",
    ) || text::starts_with_str(&apk, "/product/") || text::starts_with_str(&apk, "/vendor/")
        || text::starts_with_str(&apk, "/apex/");
    Some(
        InstalledApp {
            package_name: pkg_s,
            apk_path: text::string_of(&apk),
            uid,
            version_code,
            system,
        },
    )
}

/// The package of a `pm list packages` row, when it is a valid identifier.
pub open spec fn package_only(line: Seq<char>) -> Option<Seq<char>> {
    match text::strip_prefix(text::trim(line), "package:"@) {
        Some(p) => if validation::package_name_check(p) is Ok {
            Some(p)
        } else {
            None
        },
        None => None,
    }
}

pub fn parse_package_only_row(line: &str) -> (r: Option<String>)
    ensures
        text::opt_view(r) == package_only(line@),
{
    let cs = text::chars_of(line);
    let t = text::trim_exec(&cs);
    let p = match text::strip_prefix_str(&t, "package:") {
        Some(p) => p,
        None => {
            return None;
        },
    };
    let s = text::string_of(&p);
    if validation::package_name(s.as_str()).is_err() {
        return None;
    }
    Some(s)
}

/// Marks the applications that the package manager reports as system
/// packages (an updated system application can live below `/data/app`).
pub fn mark_system_packages(apps: &mut Vec<InstalledApp>, system_packages: &[String])
    ensures
        final(apps)@.len() == old(apps)@.len(),
        forall|i: int|
            0 <= i < final(apps)@.len() ==> {
                let a = #[trigger] final(apps)@[i];
                let o = old(apps)@[i];
                &&& a.package_name == o.package_name
                &&& a.apk_path == o.apk_path
                &&& a.uid == o.uid
                &&& a.version_code == o.version_code
                &&& a.system == (o.system || text::string_views(system_packages@).contains(
                    o.package_name@,
                ))
            },
{
    let ghost start = apps@;
    let ghost sys = text::string_views(system_packages@);
    let mut i: usize = 0;
    while i < apps.len()
        invariant
            sys == text::string_views(system_packages@),
            apps@.len() == start.len(),
            i <= apps@.len(),
            forall|j: int|
                0 <= j < apps@.len() ==> {
                    let a = #[trigger] apps@[j];
                    let o = start[j];
                    &&& a.package_name == o.package_name
                    &&& a.apk_path == o.apk_path
                    &&& a.uid == o.uid
                    &&& a.version_code == o.version_code
                    &&& a.system == (if j < i {
                        o.system || sys.contains(o.package_name@)
                    } else {
                        o.system
                    })
                },
        decreases apps@.len() - i,
    {
        let mut listed = false;
        let mut k: usize = 0;
        while k < system_packages.len()
            invariant
                sys == text::string_views(system_packages@),
                k <= system_packages@.len(),
                i < apps@.len(),
                listed == exists|m: int| 0 <= m < k && sys[m] == apps@[i as int].package_name@,
            decreases system_packages@.len() - k,
        {
            let hit = text::eq_str_str(system_packages[k].as_str(), apps[i].package_name.as_str());
            assert(sys[k as int] == system_packages@[k as int]@);
            if hit {
                listed = true;
            }
            k = k + 1;
        }
        proof {
            if listed {
                let m = choose|m: int| 0 <= m < system_packages@.len() && sys[m] == apps@[i as int].package_name@;
                assert(sys.contains(apps@[i as int].package_name@));
            }
            if sys.contains(apps@[i as int].package_name@) {
                let m = choose|m: int| 0 <= m < sys.len() && sys[m] == apps@[i as int].package_name@;
                assert(0 <= m < system_packages@.len());
            }
        }
        let was = apps[i].system;
        let ghost before = apps@;
        let mut app = apps.remove(i);
        app.system = was || listed;
        apps.insert(i, app);
        assert(forall|j: int| 0 <= j < apps@.len() && j != i ==> apps@[j] == before[j]);
        i = i + 1;
    }
}

/// Identifiers that go through the network and not usbmux.
pub open spec fn network_serial(serial: Seq<char>) -> bool {
    text::starts_with(serial, "ios-ssh:"@) || text::contains(serial, seq![':'])
}

/// IPA installation needs a USB/usbmux device, never a LAN SSH endpoint;
/// this is checked before any tool runs.
pub fn check_ios_usb_serial(serial: &str) -> (r: Result<(), ApiError>)
    ensures
        network_serial(serial@) ==> (r matches Err(e) && is_error(
            e,
            "ios_usb_device_required"@,
            "IPA installation through ideviceinstaller requires a currently connected USB/usbmux iOS device, not a registered LAN SSH endpoint"@,
        )),
        !network_serial(serial@) ==> r is Ok,
{
    let cs = text::chars_of(serial);
    let colon: Vec<char> = vec![':'];
    assert(colon@ =~= seq![':']);
    if text::starts_with_str(&cs, "ios-ssh:") || text::contains_exec(&cs, &colon) {
        return Err(
            ApiError::new(
                "ios_usb_device_required",
                "IPA installation through ideviceinstaller requires a currently connected USB/usbmux iOS device, not a registered LAN SSH endpoint",
            ),
        );
    }
    Ok(())
}

/// `idevice_id -l` lists the device.
pub fn check_udid_listed(stdout: &str, serial: &str) -> (r: Result<(), ApiError>)
    ensures
        (exists|i: int|
            0 <= i < text::lines(stdout@).len() && text::trim(#[trigger] text::lines(stdout@)[i])
                == serial@) ==> r is Ok,
        !(exists|i: int|
            0 <= i < text::lines(stdout@).len() && text::trim(#[trigger] text::lines(stdout@)[i])
                == serial@) ==> (r matches Err(e) && is_error(
            e,
            "ios_usb_device_not_found"@,
            "The selected iOS UDID is not present in the current usbmux device list"@,
        )),
{
    let ls = text::lines_of(stdout);
    if text::has_trimmed_line_exec(&ls, serial) {
        Ok(())
    } else {
        Err(
            ApiError::new(
                "ios_usb_device_not_found",
                "The selected iOS UDID is not present in the current usbmux device list",
            ),
        )
    }
}

/// The installer arguments: `adb install` with the chosen flags, or
/// `ideviceinstaller -u <udid> install`.
pub open spec fn install_args(
    platform: MobilePlatform,
    serial: Seq<char>,
    path: Seq<char>,
    replace: bool,
    grant: bool,
    downgrade: bool,
    test: bool,
) -> Seq<Seq<char>> {
    match platform {
        MobilePlatform::Android => seq!["-s"@, serial, "install"@] + (if replace {
            seq!["-r"@]
        } else {
            Seq::empty()
        }) + (if grant {
            seq!["-g"@]
        } else {
            Seq::empty()
        }) + (if downgrade {
            seq!["-d"@]
        } else {
            Seq::empty()
        }) + (if test {
            seq!["-t"@]
        } else {
            Seq::empty()
        }) + seq![path],
        MobilePlatform::Ios => seq!["-u"@, serial, "install"@, path],
    }
}

pub fn install_arguments(request: &InstallMobilePackageRequest, path: &str) -> (r: Vec<String>)
    ensures
        text::string_views(r@) == install_args(
            request.platform,
            request.serial@,
            path@,
            request.replace,
            request.grant_permissions,
            request.downgrade,
            request.allow_test_packages,
        ),
{
    let mut args: Vec<String> = Vec::new();
    match request.platform {
        MobilePlatform::Android => {
            text::push_str(&mut args, "-s");
            text::push_str(&mut args, request.serial.as_str());
            text::push_str(&mut args, "install");
            if request.replace {
                text::push_str(&mut args, "-r");
            }
            if request.grant_permissions {
                text::push_str(&mut args, "-g");
            }
            if request.downgrade {
                text::push_str(&mut args, "-d");
            }
            if request.allow_test_packages {
                text::push_str(&mut args, "-t");
            }
            text::push_str(&mut args, path);
        },
        MobilePlatform::Ios => {
            text::push_str(&mut args, "-u");
            text::push_str(&mut args, request.serial.as_str());
            text::push_str(&mut args, "install");
            text::push_str(&mut args, path);
        },
    }
    assert(text::string_views(args@) =~= install_args(
        request.platform,
        request.serial@,
        path@,
        request.replace,
        request.grant_permissions,
        request.downgrade,
        request.allow_test_packages,
    ));
    args
}

pub open spec fn install_message_spec(platform: MobilePlatform) -> Seq<char> {
    match platform {
        MobilePlatform::Android => "Android package installed"@,
        MobilePlatform::Ios => "iOS package submitted to ideviceinstaller (normal signing and trust checks remain active)"@,
    }
}

pub fn install_message(platform: MobilePlatform) -> (r: &'static str)
    ensures
        r@ == install_message_spec(platform),
{
    match platform {
        MobilePlatform::Android => "Android package installed",
        MobilePlatform::Ios => "iOS package submitted to ideviceinstaller (normal signing and trust checks remain active)",
    }
}

// ---------------------------------------------------------------------------
// Architectures
// ---------------------------------------------------------------------------

pub open spec fn abi_char(c: char) -> bool {
    text::is_alnum(c) || c == '-' || c == '_' || c == '.'
}

/// The ABI of a native library entry `lib/<abi>/<name>.so` (any letter case
/// for the extension; further path segments are allowed).
pub open spec fn entry_abi(name: Seq<char>) -> Option<Seq<char>> {
    let segs = text::split(name, '/');
    if segs.len() >= 3 && segs[0] == "lib"@ && segs[2].len() > 0 && text::ends_with(
        text::lower(segs[2]),
        ".so"@,
    ) && segs[1].len() > 0 && text::utf8_len(segs[1]) <= 64 && (forall|i: int|
        0 <= i < segs[1].len() ==> abi_char(#[trigger] segs[1][i])) {
        Some(segs[1])
    } else {
        None
    }
}

#[verifier::loop_isolation(false)]
pub fn apk_architecture_from_entry(name: &str) -> (r: Option<String>)
    ensures
        text::opt_view(r) == entry_abi(name@),
{
    let cs = text::chars_of(name);
    let segs = text::split_exec(&cs, '/');
    let ghost sv = text::views(segs@);
    if segs.len() < 3 {
        return None;
    }
    assert(sv[0] == segs@[0]@ && sv[1] == segs@[1]@ && sv[2] == segs@[2]@);
    if !text::eq_str(&segs[0], "lib") {
        return None;
    }
    let arch = &segs[1];
    let lib = &segs[2];
    let lib_lower = text::lower_exec(lib);
    if lib.len() == 0 || !text::ends_with_str(&lib_lower, ".so") || arch.len() == 0
        || text::utf8_len_capped(arch, 65) > 64 {
        return None;
    }
    let mut k: usize = 0;
    while k < arch.len()
        invariant
            k <= arch@.len(),
            forall|j: int| 0 <= j < k ==> abi_char(#[trigger] arch@[j]),
        decreases arch@.len() - k,
    {
        let c = arch[k];
        if !(text::is_alnum_exec(c) || c == '-' || c == '_' || c == '.') {
            assert(!abi_char(arch@[k as int]));
            return None;
        }
        k = k + 1;
    }
    Some(text::string_of(arch))
}

/// The name of a Mach-O CPU type.
pub open spec fn cpu_name(cpu_type: u32) -> Option<Seq<char>> {
    if cpu_type == 7 {
        Some("x86"@)
    } else if cpu_type == 12 {
        Some("arm"@)
    } else if cpu_type == 18 {
        Some("powerpc"@)
    } else if cpu_type == 0x0100_0007 {
        Some("x86_64"@)
    } else if cpu_type == 0x0100_000c {
        Some("arm64"@)
    } else if cpu_type == 0x0100_0012 {
        Some("powerpc64"@)
    } else if cpu_type == 0x0200_000c {
        Some("arm64_32"@)
    } else {
        None
    }
}

pub fn macho_cpu_name(cpu_type: u32) -> (r: Option<&'static str>)
    ensures
        match r {
            Some(n) => cpu_name(cpu_type) == Some(n@),
            None => cpu_name(cpu_type) is None,
        },
{
    if cpu_type == 7 {
        Some("x86")
    } else if cpu_type == 12 {
        Some("arm")
    } else if cpu_type == 18 {
        Some("powerpc")
    } else if cpu_type == 0x0100_0007 {
        Some("x86_64")
    } else if cpu_type == 0x0100_000c {
        Some("arm64")
    } else if cpu_type == 0x0100_0012 {
        Some("powerpc64")
    } else if cpu_type == 0x0200_000c {
        Some("arm64_32")
    } else {
        None
    }
}

/// The byte order of a Mach-O header.
#[derive(Debug, Clone, Copy, PartialEq, Eq, Structural)]
pub enum ByteOrder {
    Big,
    Little,
}

/// A 32-bit number from four bytes in the given order.
pub open spec fn u32_of(b: Seq<u8>, order: ByteOrder) -> nat {
    match order {
        ByteOrder::Big => b[0] as nat * 16777216 + b[1] as nat * 65536 + b[2] as nat * 256
            + b[3] as nat,
        ByteOrder::Little => b[3] as nat * 16777216 + b[2] as nat * 65536 + b[1] as nat * 256
            + b[0] as nat,
    }
}

/// Reads a 32-bit number from exactly four bytes.
pub fn read_u32(bytes: &[u8], order: ByteOrder) -> (r: Option<u32>)
    ensures
        bytes@.len() == 4 ==> r == Some(u32_of(bytes@, order) as u32),
        bytes@.len() == 4 ==> u32_of(bytes@, order) <= u32::MAX,
        bytes@.len() != 4 ==> r is None,
{
    if bytes.len() != 4 {
        return None;
    }
    let (a, b, c, d): (u32, u32, u32, u32) = match order {
        ByteOrder::Big => (bytes[0] as u32, bytes[1] as u32, bytes[2] as u32, bytes[3] as u32),
        ByteOrder::Little => (bytes[3] as u32, bytes[2] as u32, bytes[1] as u32, bytes[0] as u32),
    };
    assert(a * 16777216 + b * 65536 + c * 256 + d <= 0xffff_ffff) by (nonlinear_arith)
        requires
            a < 256,
            b < 256,
            c < 256,
            d < 256,
    ;
    Some(a * 16777216 + b * 65536 + c * 256 + d)
}

/// `u16::from_le_bytes` of exactly two bytes.
pub fn read_le_u16(bytes: &[u8]) -> (r: Option<u16>)
    ensures
        bytes@.len() == 2 ==> r == Some((bytes@[1] as nat * 256 + bytes@[0] as nat) as u16),
        bytes@.len() != 2 ==> r is None,
{
    if bytes.len() != 2 {
        return None;
    }
    Some((bytes[1] as u16) * 256 + bytes[0] as u16)
}

/// `u32::from_le_bytes` of exactly four bytes.
pub fn read_le_u32(bytes: &[u8]) -> (r: Option<u32>)
    ensures
        bytes@.len() == 4 ==> r == Some(u32_of(bytes@, ByteOrder::Little) as u32),
        bytes@.len() != 4 ==> r is None,
{
    read_u32(bytes, ByteOrder::Little)
}

/// The little-endian value of a byte sequence.
pub open spec fn le_value(b: Seq<u8>) -> nat
    decreases b.len(),
{
    if b.len() == 0 {
        0
    } else {
        b[0] as nat + 256 * le_value(b.drop_first())
    }
}

/// `u64::from_le_bytes` of exactly eight bytes.
pub fn read_le_u64(bytes: &[u8]) -> (r: Option<u64>)
    ensures
        bytes@.len() == 8 ==> r == Some(le_value(bytes@) as u64),
        bytes@.len() == 8 ==> le_value(bytes@) <= u64::MAX,
        bytes@.len() != 8 ==> r is None,
{
    if bytes.len() != 8 {
        return None;
    }
    let mut v: u64 = 0;
    let mut i: usize = 8;
    assert(bytes@.skip(8) =~= Seq::<u8>::empty());
    while i > 0
        invariant
            i <= 8,
            bytes@.len() == 8,
            v == le_value(bytes@.skip(i as int)),
            le_value(bytes@.skip(i as int)) < pow256((8 - i) as nat),
        decreases i,
    {
        let ghost rest = bytes@.skip(i as int);
        assert(bytes@.skip(i - 1).drop_first() =~= rest);
        assert(bytes@.skip(i - 1)[0] == bytes@[i - 1]);
        proof {
            lemma_pow256_step((8 - i) as nat);
            assert(v * 256 + bytes@[i - 1] < pow256((8 - i) as nat) * 256) by (nonlinear_arith)
                requires
                    v < pow256((8 - i) as nat),
                    bytes@[i - 1] < 256,
            ;
            assert(pow256((8 - i) as nat) * 256 <= 0x1_0000_0000_0000_0000) by {
                lemma_pow256_bound((9 - i) as nat);
            }
        }
        v = v * 256 + bytes[i - 1] as u64;
        i = i - 1;
    }
    assert(bytes@.skip(0) =~= bytes@);
    Some(v)
}

pub open spec fn pow256(n: nat) -> nat
    decreases n,
{
    if n == 0 {
        1
    } else {
        256 * pow256((n - 1) as nat)
    }
}

proof fn lemma_pow256_step(n: nat)
    ensures
        pow256(n + 1) == pow256(n) * 256,
{
}

proof fn lemma_pow256_bound(n: nat)
    requires
        n <= 8,
    ensures
        pow256(n) <= 0x1_0000_0000_0000_0000,
    decreases n,
{
    if n > 0 {
        lemma_pow256_bound((n - 1) as nat);
        reveal_with_fuel(pow256, 9);
    }
}

/// The layout of a Mach-O header: a thin header of one byte order, or a
/// fat header of one byte order with 20- or 32-byte architecture entries.
pub open spec fn macho_layout(b: Seq<u8>) -> Option<(bool, ByteOrder, nat)> {
    if (b[0] == 0xce || b[0] == 0xcf) && b[1] == 0xfa && b[2] == 0xed && b[3] == 0xfe {
        Some((false, ByteOrder::Little, 0))
    } else if b[0] == 0xfe && b[1] == 0xed && b[2] == 0xfa && (b[3] == 0xce || b[3] == 0xcf) {
        Some((false, ByteOrder::Big, 0))
    } else if b[0] == 0xca && b[1] == 0xfe && b[2] == 0xba && b[3] == 0xbe {
        Some((true, ByteOrder::Big, 20))
    } else if b[0] == 0xbe && b[1] == 0xba && b[2] == 0xfe && b[3] == 0xca {
        Some((true, ByteOrder::Little, 20))
    } else if b[0] == 0xca && b[1] == 0xfe && b[2] == 0xba && b[3] == 0xbf {
        Some((true, ByteOrder::Big, 32))
    } else if b[0] == 0xbf && b[1] == 0xba && b[2] == 0xfe && b[3] == 0xca {
        Some((true, ByteOrder::Little, 32))
    } else {
        None
    }
}

/// `x` is an architecture named by the header `b`: the CPU of a thin
/// header, or the CPU of one of the first (at most 32) complete entries of
/// a fat header.
pub open spec fn macho_arch(b: Seq<u8>, x: Seq<char>) -> bool {
    b.len() >= 8 && match macho_layout(b) {
        Some((false, order, _)) => cpu_name(u32_of(b.subrange(4, 8), order) as u32) == Some(x),
        Some((true, order, size)) => exists|k: int|
            0 <= k < u32_of(b.subrange(4, 8), order) && k < 32 && 8 + k * size + 4 <= b.len()
                && cpu_name(
                u32_of(#[trigger] b.subrange(8 + k * size, 8 + k * size + 4), order) as u32,
            ) == Some(x),
        None => false,
    }
}

/// No two CPU types share a name, and the 64-bit ABI of a CPU type
/// (`CPU_ARCH_ABI64`, bit 24) is named after its 32-bit one: ARM (12) is
/// `arm` and its 64-bit ABI `arm64`, PowerPC (18) `powerpc` and `powerpc64`,
/// x86 (7) `x86` and `x86_64`; the 32-bit-pointer ABI of 64-bit ARM
/// (`CPU_ARCH_ABI64_32`, bit 25) is `arm64_32`.
pub proof fn lemma_cpu_names(a: u32, b: u32)
    ensures
        cpu_name(a) is Some && cpu_name(a) == cpu_name(b) ==> a == b,
        cpu_name(12) == Some("arm"@),
        cpu_name((12 + 0x0100_0000) as u32) == Some("arm"@ + "64"@),
        cpu_name(18) == Some("powerpc"@),
        cpu_name((18 + 0x0100_0000) as u32) == Some("powerpc"@ + "64"@),
        cpu_name(7) == Some("x86"@),
        cpu_name((7 + 0x0100_0000) as u32) == Some("x86"@ + "_64"@),
        cpu_name((12 + 0x0200_0000) as u32) == Some("arm"@ + "64"@ + "_32"@),
{
    reveal_strlit("x86");
    reveal_strlit("arm");
    reveal_strlit("powerpc");
    reveal_strlit("x86_64");
    reveal_strlit("arm64");
    reveal_strlit("powerpc64");
    reveal_strlit("arm64_32");
    reveal_strlit("64");
    reveal_strlit("_64");
    reveal_strlit("_32");
    assert("arm"@ + "64"@ =~= "arm64"@);
    assert("powerpc"@ + "64"@ =~= "powerpc64"@);
    assert("x86"@ + "_64"@ =~= "x86_64"@);
    assert("arm"@ + "64"@ + "_32"@ =~= "arm64_32"@);
    // Names of equal length differ in some character.
    assert("x86"@[0] != "arm"@[0]);
    assert("arm64"@[0] != "x86_64"@[0] || "arm64"@.len() != "x86_64"@.len());
    assert("arm64_32"@[0] != "powerpc"@[0]);
    assert("powerpc64"@.len() != "arm64_32"@.len());
}

/// A thin Mach-O header names exactly the architecture of its CPU type, read
/// in the header's byte order; so a 32-bit ARM binary is `arm`, never
/// `arm64`.
pub proof fn lemma_thin_header_arch(b: Seq<u8>, x: Seq<char>)
    requires
        b.len() >= 8,
        macho_layout(b) matches Some((false, _, _)),
    ensures
        macho_arch(b, x) <==> (match macho_layout(b) {
            Some((_, order, _)) => cpu_name(u32_of(b.subrange(4, 8), order) as u32) == Some(x),
            None => false,
        }),
        b[0] == 0xce && b[1] == 0xfa && b[2] == 0xed && b[3] == 0xfe && b[4] == 12 && b[5] == 0 && b[6] == 0
            && b[7] == 0 ==> (macho_arch(b, x) <==> x == "arm"@),
        b[0] == 0xcf && b[1] == 0xfa && b[2] == 0xed && b[3] == 0xfe && b[4] == 12 && b[5] == 0 && b[6] == 0
            && b[7] == 1 ==> (macho_arch(b, x) <==> x == "arm64"@),
{
    let s = b.subrange(4, 8);
    assert(s[0] == b[4] && s[1] == b[5] && s[2] == b[6] && s[3] == b[7]);
    lemma_cpu_names(12, 12);
    reveal_strlit("arm64");
    reveal_strlit("64");
    assert("arm"@ + "64"@ =~= "arm64"@) by {
        reveal_strlit("arm");
    }
}

/// The architectures named by a Mach-O header, in name order.
pub fn parse_macho_architectures(bytes: &[u8]) -> (r: Vec<String>)
    ensures
        text::sorted_set(text::string_views(r@)),
        forall|x: Seq<char>| text::string_views(r@).contains(x) <==> macho_arch(bytes@, x),
{
    let mut out: Vec<String> = Vec::new();
    assert(text::string_views(out@) =~= Seq::<Seq<char>>::empty());
    if bytes.len() < 8 {
        return out;
    }
    let b0 = bytes[0];
    let b1 = bytes[1];
    let b2 = bytes[2];
    let b3 = bytes[3];
    let layout: Option<(bool, ByteOrder, usize)> = if (b0 == 0xce || b0 == 0xcf) && b1 == 0xfa
        && b2 == 0xed && b3 == 0xfe {
        Some((false, ByteOrder::Little, 0))
    } else if b0 == 0xfe && b1 == 0xed && b2 == 0xfa && (b3 == 0xce || b3 == 0xcf) {
        Some((false, ByteOrder::Big, 0))
    } else if b0 == 0xca && b1 == 0xfe && b2 == 0xba && b3 == 0xbe {
        Some((true, ByteOrder::Big, 20))
    } else if b0 == 0xbe && b1 == 0xba && b2 == 0xfe && b3 == 0xca {
        Some((true, ByteOrder::Little, 20))
    } else if b0 == 0xca && b1 == 0xfe && b2 == 0xba && b3 == 0xbf {
        Some((true, ByteOrder::Big, 32))
    } else if b0 == 0xbf && b1 == 0xba && b2 == 0xfe && b3 == 0xca {
        Some((true, ByteOrder::Little, 32))
    } else {
        None
    };
    let (fat, order, size) = match layout {
        Some(l) => l,
        None => {
            return out;
        },
    };
    let head = slice_bytes(bytes, 4, 8);
    let n = match read_u32(&head, order) {
        Some(n) => n,
        None => {
            return out;
        },
    };
    if !fat {
        if let Some(name) = macho_cpu_name(n) {
            text::insert_sorted_unique(&mut out, name);
        }
        return out;
    }
    let count: usize = if n < 32 {
        n as usize
    } else {
        32
    };
    let mut k: usize = 0;
    while k < count
        invariant
            bytes@.len() >= 8,
            macho_layout(bytes@) == Some((true, order, size as nat)),
            size == 20 || size == 32,
            n as nat == u32_of(bytes@.subrange(4, 8), order),
            count <= 32,
            count as nat == (if n < 32 {
                n as nat
            } else {
                32
            }),
            k <= count,
            text::sorted_set(text::string_views(out@)),
            forall|x: Seq<char>|
                text::string_views(out@).contains(x) <==> exists|j: int|
                    0 <= j < k && 8 + j * size + 4 <= bytes@.len() && cpu_name(
                        u32_of(#[trigger] bytes@.subrange(8 + j * size, 8 + j * size + 4), order)
                            as u32,
                    ) == Some(x),
        decreases count - k,
    {
        assert(k * size <= 1024) by (nonlinear_arith)
            requires
                k <= 32,
                size <= 32,
        ;
        let offset = 8 + k * size;
        if offset + 4 > bytes.len() {
            assert forall|x: Seq<char>| macho_arch(bytes@, x) implies text::string_views(
                out@,
            ).contains(x) by {
                let j = choose|j: int|
                    0 <= j < u32_of(bytes@.subrange(4, 8), order) && j < 32 && 8 + j * size + 4
                        <= bytes@.len() && cpu_name(
                        u32_of(
                            #[trigger] bytes@.subrange(8 + j * size, 8 + j * size + 4),
                            order,
                        ) as u32,
                    ) == Some(x);
                if j >= k {
                    assert(8 + j * size >= 8 + k * size) by (nonlinear_arith)
                        requires
                            j >= k,
                            size >= 0,
                    ;
                }
            }
            return out;
        }
        let cpu = slice_bytes(bytes, offset, offset + 4);
        let ghost before = text::string_views(out@);
        match read_u32(&cpu, order) {
            Some(c) => match macho_cpu_name(c) {
                Some(name) => {
                    text::insert_sorted_unique(&mut out, name);
                },
                None => {},
            },
            None => {},
        }
        assert forall|x: Seq<char>| text::string_views(out@).contains(x) <==> exists|j: int|
            0 <= j < k + 1 && 8 + j * size + 4 <= bytes@.len() && cpu_name(
                u32_of(#[trigger] bytes@.subrange(8 + j * size, 8 + j * size + 4), order) as u32,
            ) == Some(x) by {
            if exists|j: int|
                0 <= j < k + 1 && 8 + j * size + 4 <= bytes@.len() && cpu_name(
                    u32_of(#[trigger] bytes@.subrange(8 + j * size, 8 + j * size + 4), order)
                        as u32,
                ) == Some(x) {
                let j = choose|j: int|
                    0 <= j < k + 1 && 8 + j * size + 4 <= bytes@.len() && cpu_name(
                        u32_of(
                            #[trigger] bytes@.subrange(8 + j * size, 8 + j * size + 4),
                            order,
                        ) as u32,
                    ) == Some(x);
                if j < k {
                    assert(before.contains(x));
                }
            }
        }
        k = k + 1;
    }
    assert forall|x: Seq<char>| text::string_views(out@).contains(x) <==> macho_arch(bytes@, x) by {
    }
    out
}

/// Copies `b[a..c]`.
fn slice_bytes(b: &[u8], a: usize, c: usize) -> (r: Vec<u8>)
    requires
        a <= c <= b@.len(),
    ensures
        r@ == b@.subrange(a as int, c as int),
{
    let mut r: Vec<u8> = Vec::new();
    let mut i: usize = a;
    while i < c
        invariant
            a <= i <= c <= b@.len(),
            r@ == b@.subrange(a as int, i as int),
        decreases c - i,
    {
        r.push(b[i]);
        i = i + 1;
        assert(r@ =~= b@.subrange(a as int, i as int));
    }
    r
}

// ---------------------------------------------------------------------------
// Analyzer output
// ---------------------------------------------------------------------------

/// The text between `<key><open>` and the next `close`.
pub open spec fn attr_between(line: Seq<char>, key: Seq<char>, open: Seq<char>, close: char) -> Option<Seq<char>> {
    match text::split_once(line, key + open) {
        Some((_, rest)) => match text::split_once(rest, seq![close]) {
            Some((v, _)) => Some(v),
            None => None,
        },
        None => None,
    }
}

fn attr_between_exec(line: &[char], key: &str, open: &str, close: char) -> (r: Option<Vec<char>>)
    ensures
        match r {
            Some(v) => attr_between(line@, key@, open@, close) == Some(v@),
            None => attr_between(line@, key@, open@, close) is None,
        },
{
    let mut marker = text::chars_of(key);
    text::append_str(&mut marker, open);
    let rest = match text::split_once_exec(line, &marker) {
        Some((_, rest)) => rest,
        None => {
            return None;
        },
    };
    let c: Vec<char> = vec![close];
    assert(c@ =~= seq![close]);
    match text::split_once_exec(&rest, &c) {
        Some((v, _)) => Some(v),
        None => None,
    }
}

/// An attribute of an aapt line: `key='value'`.
pub open spec fn quoted(line: Seq<char>, key: Seq<char>) -> Option<Seq<char>> {
    attr_between(line, key, "='"@, '\'')
}

pub fn quoted_attr(line: &str, key: &str) -> (r: Option<String>)
    ensures
        text::opt_view(r) == quoted(line@, key@),
{
    let cs = text::chars_of(line);
    match attr_between_exec(&cs, key, "='", '\'') {
        Some(v) => Some(text::string_of(&v)),
        None => None,
    }
}

/// An attribute of an XML manifest line: `key="value"`.
pub open spec fn xml_attr(line: Seq<char>, key: Seq<char>) -> Option<Seq<char>> {
    attr_between(line, key, "=\""@, '"')
}

pub fn xml_attribute(line: &str, key: &str) -> (r: Option<String>)
    ensures
        text::opt_view(r) == xml_attr(line@, key@),
{
    let cs = text::chars_of(line);
    match attr_between_exec(&cs, key, "=\"", '"') {
        Some(v) => Some(text::string_of(&v)),
        None => None,
    }
}

/// Package metadata read from analyzer output.
#[derive(Debug, Clone, Default)]
pub struct PackageMetadata {
    pub package_name: Option<String>,
    pub display_name: Option<String>,
    pub version_name: Option<String>,
    pub version_code: Option<String>,
    pub minimum_os_version: Option<String>,
    pub target_sdk_version: Option<String>,
    /// Permission names in name order, each once.
    pub permissions: Vec<String>,
    pub icon_hints: Vec<String>,
}

/// The value after the first colon, with single quotes trimmed from both ends.
pub open spec fn colon_value(line: Seq<char>) -> Option<Seq<char>> {
    match text::split_once(line, seq![':']) {
        Some((_, v)) => Some(text::trim_end_char(text::trim_start_char(v, '\''), '\'')),
        None => None,
    }
}

fn colon_value_exec(line: &[char]) -> (r: Option<String>)
    ensures
        text::opt_view(r) == colon_value(line@),
{
    let colon: Vec<char> = vec![':'];
    assert(colon@ =~= seq![':']);
    match text::split_once_exec(line, &colon) {
        Some((_, v)) => {
            let a = text::trim_start_char_exec(&v, '\'');
            let b = text::trim_end_char_exec(&a, '\'');
            Some(text::string_of(&b))
        },
        None => None,
    }
}

/// One aapt `dump badging` line applied to the metadata. Each field is the
/// characters of the corresponding `PackageMetadata` field; `perms` is the
/// set of permission names.
pub open spec fn badging_line(
    m: (Option<Seq<char>>, Option<Seq<char>>, Option<Seq<char>>, Option<Seq<char>>, Option<Seq<char>>, Option<Seq<char>>, Set<Seq<char>>, Seq<Seq<char>>),
    line: Seq<char>,
) -> (Option<Seq<char>>, Option<Seq<char>>, Option<Seq<char>>, Option<Seq<char>>, Option<Seq<char>>, Option<Seq<char>>, Set<Seq<char>>, Seq<Seq<char>>) {
    let (package, display, vname, vcode, min_os, target, perms, icons) = m;
    if text::starts_with(line, "package:"@) {
        (quoted(line, "name"@), display, quoted(line, "versionName"@), quoted(line, "versionCode"@), min_os, target, perms, icons)
    } else if text::starts_with(line, "application-label:"@) {
        (package, colon_value(line), vname, vcode, min_os, target, perms, icons)
    } else if display is None && text::starts_with(line, "application-label-"@) {
        (package, colon_value(line), vname, vcode, min_os, target, perms, icons)
    } else if text::starts_with(line, "uses-permission"@) {
        let value = match quoted(line, "name"@) {
            Some(v) => Some(v),
            None => colon_value(line),
        };
        (package, display, vname, vcode, min_os, target, match value {
            Some(v) => perms.insert(v),
            None => perms,
        }, icons)
    } else if text::starts_with(line, "application:"@) {
        (package, quoted(line, "label"@), vname, vcode, min_os, target, perms, match quoted(line, "icon"@) {
            Some(i) => icons.push(i),
            None => icons,
        })
    } else if text::starts_with(line, "sdkVersion:"@) {
        (package, display, vname, vcode, colon_value(line), target, perms, icons)
    } else if text::starts_with(line, "targetSdkVersion:"@) {
        (package, display, vname, vcode, min_os, colon_value(line), perms, icons)
    } else if text::starts_with(line, "application-icon-"@) {
        (package, display, vname, vcode, min_os, target, perms, match colon_value(line) {
            Some(i) => icons.push(i),
            None => icons,
        })
    } else {
        m
    }
}

/// The metadata after reading all `lines` in order.
pub open spec fn badging(
    m: (Option<Seq<char>>, Option<Seq<char>>, Option<Seq<char>>, Option<Seq<char>>, Option<Seq<char>>, Option<Seq<char>>, Set<Seq<char>>, Seq<Seq<char>>),
    lines: Seq<Seq<char>>,
) -> (Option<Seq<char>>, Option<Seq<char>>, Option<Seq<char>>, Option<Seq<char>>, Option<Seq<char>>, Option<Seq<char>>, Set<Seq<char>>, Seq<Seq<char>>)
    decreases lines.len(),
{
    if lines.len() == 0 {
        m
    } else {
        badging_line(badging(m, lines.drop_last()), lines.last())
    }
}

/// The fields of `PackageMetadata` as character sequences and a set.
pub open spec fn meta_view(m: PackageMetadata) -> (Option<Seq<char>>, Option<Seq<char>>, Option<Seq<char>>, Option<Seq<char>>, Option<Seq<char>>, Option<Seq<char>>, Set<Seq<char>>, Seq<Seq<char>>) {
    (
        text::opt_view(m.package_name),
        text::opt_view(m.display_name),
        text::opt_view(m.version_name),
        text::opt_view(m.version_code),
        text::opt_view(m.minimum_os_version),
        text::opt_view(m.target_sdk_version),
        text::string_views(m.permissions@).to_set(),
        text::string_views(m.icon_hints@),
    )
}

fn str_starts(line: &[char], p: &str) -> (r: bool)
    ensures
        r == text::starts_with(line@, p@),
{
    text::starts_with_str(line, p)
}

fn badging_line_exec(m: &mut PackageMetadata, line: &[char])
    requires
        text::sorted_set(text::string_views(old(m).permissions@)),
    ensures
        text::sorted_set(text::string_views(final(m).permissions@)),
        meta_view(*final(m)) == badging_line(meta_view(*old(m)), line@),
{
    let ghost before = meta_view(*m);
    let l = text::string_of(line);
    if str_starts(line, "package:") {
        m.package_name = quoted_attr(l.as_str(), "name");
        m.version_code = quoted_attr(l.as_str(), "versionCode");
        m.version_name = quoted_attr(l.as_str(), "versionName");
    } else if str_starts(line, "application-label:") {
        m.display_name = colon_value_exec(line);
    } else if m.display_name.is_none() && str_starts(line, "application-label-") {
        m.display_name = colon_value_exec(line);
    } else if str_starts(line, "uses-permission") {
        let value = match quoted_attr(l.as_str(), "name") {
            Some(v) => Some(v),
            None => colon_value_exec(line),
        };
        if let Some(v) = value {
            let ghost old_p = text::string_views(m.permissions@);
            text::insert_sorted_unique(&mut m.permissions, v.as_str());
            assert(text::string_views(m.permissions@).to_set() =~= old_p.to_set().insert(v@));
        }
    } else if str_starts(line, "application:") {
        m.display_name = quoted_attr(l.as_str(), "label");
        if let Some(icon) = quoted_attr(l.as_str(), "icon") {
            let ghost old_i = text::string_views(m.icon_hints@);
            m.icon_hints.push(icon);
            assert(text::string_views(m.icon_hints@) =~= old_i.push(icon@));
        }
    } else if str_starts(line, "sdkVersion:") {
        m.minimum_os_version = colon_value_exec(line);
    } else if str_starts(line, "targetSdkVersion:") {
        m.target_sdk_version = colon_value_exec(line);
    } else if str_starts(line, "application-icon-") {
        if let Some(icon) = colon_value_exec(line) {
            let ghost old_i = text::string_views(m.icon_hints@);
            m.icon_hints.push(icon);
            assert(text::string_views(m.icon_hints@) =~= old_i.push(icon@));
        }
    }
}

/// Reads the output of `aapt2 dump badging` into the metadata.
pub fn parse_aapt_badging(output: &str, metadata: &mut PackageMetadata)
    requires
        text::sorted_set(text::string_views(old(metadata).permissions@)),
    ensures
        text::sorted_set(text::string_views(final(metadata).permissions@)),
        meta_view(*final(metadata)) == badging(meta_view(*old(metadata)), text::lines(output@)),
{
    let ls = text::lines_of(output);
    let ghost vs = text::views(ls@);
    let ghost start = meta_view(*metadata);
    let mut i: usize = 0;
    while i < ls.len()
        invariant
            vs == text::views(ls@),
            i <= ls@.len(),
            text::sorted_set(text::string_views(metadata.permissions@)),
            meta_view(*metadata) == badging(start, vs.take(i as int)),
        decreases ls@.len() - i,
    {
        assert(vs.take(i + 1).drop_last() =~= vs.take(i as int));
        assert(vs.take(i + 1).last() == ls@[i as int]@);
        badging_line_exec(metadata, &ls[i]);
        i = i + 1;
    }
    assert(vs.take(ls@.len() as int) =~= vs);
}

// ---------------------------------------------------------------------------
// Icons
// ---------------------------------------------------------------------------

/// The image type of an archive entry name (already in lower case).
pub open spec fn mime_of(lower: Seq<char>) -> Option<Seq<char>> {
    if text::ends_with(lower, ".png"@) {
        Some("image/png"@)
    } else if text::ends_with(lower, ".webp"@) {
        Some("image/webp"@)
    } else if text::ends_with(lower, ".jpg"@) || text::ends_with(lower, ".jpeg"@) {
        Some("image/jpeg"@)
    } else {
        None
    }
}

pub fn icon_mime(lower: &str) -> (r: Option<&'static str>)
    ensures
        match r {
            Some(m) => mime_of(lower@) == Some(m@),
            None => mime_of(lower@) is None,
        },
{
    let cs = text::chars_of(lower);
    if text::ends_with_str(&cs, ".png") {
        Some("image/png")
    } else if text::ends_with_str(&cs, ".webp") {
        Some("image/webp")
    } else if text::ends_with_str(&cs, ".jpg") || text::ends_with_str(&cs, ".jpeg") {
        Some("image/jpeg")
    } else {
        None
    }
}

/// The entry lies inside the selected application bundle and not inside a
/// nested bundle (a plug-in or an extension).
pub open spec fn within_app(name: Seq<char>, prefix: Seq<char>) -> bool {
    match text::strip_prefix(name, prefix) {
        Some(rel) => rel.len() > 0 && !(exists|i: int|
            0 <= i < text::split(rel, '/').len() && text::ends_with(
                text::lower(#[trigger] text::split(rel, '/')[i]),
                ".app"@,
            )),
        None => false,
    }
}

#[verifier::loop_isolation(false)]
pub fn is_within_selected_app(name: &str, app_prefix: &str) -> (r: bool)
    ensures
        r == within_app(name@, app_prefix@),
{
    let cs = text::chars_of(name);
    let rel = match text::strip_prefix_str(&cs, app_prefix) {
        Some(rel) => rel,
        None => {
            return false;
        },
    };
    if rel.len() == 0 {
        return false;
    }
    let segs = text::split_exec(&rel, '/');
    let ghost sv = text::views(segs@);
    let mut i: usize = 0;
    while i < segs.len()
        invariant
            sv == text::views(segs@),
            sv == text::split(rel@, '/'),
            i <= segs@.len(),
            forall|j: int| 0 <= j < i ==> !text::ends_with(text::lower(#[trigger] sv[j]), ".app"@),
        decreases segs@.len() - i,
    {
        let lower = text::lower_exec(&segs[i]);
        assert(sv[i as int] == segs@[i as int]@);
        if text::ends_with_str(&lower, ".app") {
            assert(text::ends_with(text::lower(sv[i as int]), ".app"@));
            return false;
        }
        i = i + 1;
    }
    true
}

/// The stem used to compare icon names, or the whole text.
pub open spec fn stem_or(p: Seq<char>) -> Seq<char> {
    match paths::file_stem(p) {
        Some(s) => s,
        None => p,
    }
}

/// An icon named in the package metadata matches an archive entry: the
/// same path, the same stem, or the stem followed by a scale suffix (`@2x`).
pub open spec fn hint_matches(hint: Seq<char>, candidate: Seq<char>) -> bool {
    hint == candidate || stem_or(candidate) == stem_or(hint) || text::starts_with(
        stem_or(candidate),
        stem_or(hint).push('@'),
    )
}

fn stem_or_exec(p: &[char]) -> (r: Vec<char>)
    ensures
        r@ == stem_or(p@),
{
    match paths::file_stem_exec(p) {
        Some(s) => s,
        None => text::copy_chars(p),
    }
}

pub fn icon_hint_matches(hint: &str, candidate: &str) -> (r: bool)
    ensures
        r == hint_matches(hint@, candidate@),
{
    if text::eq_str_str(hint, candidate) {
        return true;
    }
    let h = text::chars_of(hint);
    let c = text::chars_of(candidate);
    let hs = stem_or_exec(&h);
    let cs = stem_or_exec(&c);
    let mut prefix = text::copy_chars(&hs);
    prefix.push('@');
    text::seq_eq(&cs, &hs) || text::starts_with_exec(&cs, &prefix)
}

/// The score of an icon candidate: its size (capped), a large bonus for a
/// hinted icon, bonuses for high densities and launcher names, a penalty for
/// adaptive-icon layers.
pub open spec fn score_of(lower: Seq<char>, hinted: bool, size: u64) -> nat {
    let base = (if size < 2000000 {
        size as nat
    } else {
        2000000
    }) + (if hinted {
        10000000nat
    } else {
        0
    }) + (if text::contains(lower, "xxxhdpi"@) {
        5000000nat
    } else {
        0
    }) + (if text::contains(lower, "xxhdpi"@) {
        4000000nat
    } else {
        0
    }) + (if text::contains(lower, "xhdpi"@) {
        3000000nat
    } else {
        0
    }) + (if text::contains(lower, "@3x"@) {
        5000000nat
    } else {
        0
    }) + (if text::contains(lower, "@2x"@) {
        4000000nat
    } else {
        0
    }) + (if text::contains(lower, "launcher"@) {
        2000000nat
    } else {
        0
    }) + (if text::contains(lower, "appicon"@) {
        2000000nat
    } else {
        0
    });
    if text::contains(lower, "foreground"@) || text::contains(lower, "background"@) {
        if base >= 1000000 {
            (base - 1000000) as nat
        } else {
            0
        }
    } else {
        base
    }
}

fn bonus(cs: &[char], marker: &str, points: u64) -> (r: u64)
    ensures
        r == (if text::contains(cs@, marker@) {
            points
        } else {
            0
        }),
{
    if text::contains_str(cs, marker) {
        points
    } else {
        0
    }
}

pub fn icon_score(lower: &str, hinted: bool, size: u64) -> (r: u64)
    ensures
        r == score_of(lower@, hinted, size),
{
    let cs = text::chars_of(lower);
    let capped: u64 = if size < 2000000 {
        size
    } else {
        2000000
    };
    let hint_points: u64 = if hinted {
        10000000
    } else {
        0
    };
    let a = bonus(&cs, "xxxhdpi", 5000000);
    let b = bonus(&cs, "xxhdpi", 4000000);
    let c = bonus(&cs, "xhdpi", 3000000);
    let d = bonus(&cs, "@3x", 5000000);
    let e = bonus(&cs, "@2x", 4000000);
    let f = bonus(&cs, "launcher", 2000000);
    let g = bonus(&cs, "appicon", 2000000);
    let score = capped + hint_points + a + b + c + d + e + f + g;
    if text::contains_str(&cs, "foreground") || text::contains_str(&cs, "background") {
        if score >= 1000000 {
            score - 1000000
        } else {
            0
        }
    } else {
        score
    }
}

/// An entry of a package archive.
#[derive(Debug, Clone)]
pub struct ArchiveEntry {
    pub name: String,
    pub size: u64,
    pub is_dir: bool,
}

/// The largest icon Mobius extracts, 8 MiB.
pub const MAX_ICON_BYTES: u64 = 8388608;

/// Some hint matches the entry name.
pub open spec fn hinted(hints: Seq<Seq<char>>, name: Seq<char>) -> bool {
    exists|i: int| 0 <= i < hints.len() && hint_matches(#[trigger] hints[i], name)
}

/// The entry is a plausible application icon of the platform: a raster
/// image of sensible size in the launcher resources (Android) or in the
/// selected application bundle (iOS).
pub open spec fn icon_candidate(
    e: ArchiveEntry,
    hints: Seq<Seq<char>>,
    platform: MobilePlatform,
    prefix: Option<Seq<char>>,
) -> bool {
    let lower = text::lower(e.name@);
    let h = hinted(hints, e.name@);
    &&& (match prefix {
        Some(p) => within_app(e.name@, p),
        None => true,
    })
    &&& !e.is_dir && e.size != 0 && e.size <= MAX_ICON_BYTES
    &&& mime_of(lower) is Some
    &&& match platform {
        MobilePlatform::Android => text::starts_with(lower, "res/"@) && (text::contains(
            lower,
            "mipmap"@,
        ) || text::contains(lower, "drawable"@)) && (text::contains(lower, "launcher"@)
            || text::contains(lower, "app_icon"@) || h),
        MobilePlatform::Ios => text::starts_with(lower, "payload/"@) && text::contains(
            lower,
            ".app/"@,
        ) && (text::contains(lower, "appicon"@) || text::contains(lower, "icon"@) || h),
    }
}

pub open spec fn entry_score(e: ArchiveEntry, hints: Seq<Seq<char>>) -> nat {
    score_of(text::lower(e.name@), hinted(hints, e.name@), e.size)
}

fn any_hint(hints: &[String], name: &str) -> (r: bool)
    ensures
        r == hinted(text::string_views(hints@), name@),
{
    let ghost hv = text::string_views(hints@);
    let mut i: usize = 0;
    while i < hints.len()
        invariant
            hv == text::string_views(hints@),
            i <= hints@.len(),
            forall|j: int| 0 <= j < i ==> !hint_matches(#[trigger] hv[j], name@),
        decreases hints@.len() - i,
    {
        assert(hv[i as int] == hints@[i as int]@);
        if icon_hint_matches(hints[i].as_str(), name) {
            return true;
        }
        i = i + 1;
    }
    false
}

/// The icon to extract: among the candidates, the first with the highest
/// score (its index in `entries`).
pub fn choose_icon(
    entries: &[ArchiveEntry],
    hints: &[String],
    platform: MobilePlatform,
    prefix: Option<&str>,
) -> (r: Option<usize>)
    ensures
        ({
            let pv = match prefix {
                Some(p) => Some(p@),
                None => None::<Seq<char>>,
            };
            let hv = text::string_views(hints@);
            match r {
                Some(k) => {
                    &&& 0 <= k < entries@.len()
                    &&& icon_candidate(entries@[k as int], hv, platform, pv)
                    &&& forall|j: int|
                        0 <= j < entries@.len() && icon_candidate(#[trigger] entries@[j], hv, platform, pv)
                            ==> entry_score(entries@[j], hv) <= entry_score(entries@[k as int], hv)
                    &&& forall|j: int|
                        0 <= j < k && icon_candidate(#[trigger] entries@[j], hv, platform, pv)
                            ==> entry_score(entries@[j], hv) < entry_score(entries@[k as int], hv)
                },
                None => forall|j: int|
                    0 <= j < entries@.len() ==> !icon_candidate(#[trigger] entries@[j], hv, platform, pv),
            }
        }),
{
    let ghost pv = match prefix {
        Some(p) => Some(p@),
        None => None::<Seq<char>>,
    };
    let ghost hv = text::string_views(hints@);
    let mut best: Option<(usize, u64)> = None;
    let mut i: usize = 0;
    while i < entries.len()
        invariant
            i <= entries@.len(),
            pv == (match prefix {
                Some(p) => Some(p@),
                None => None::<Seq<char>>,
            }),
            hv == text::string_views(hints@),
            match best {
                Some((k, sc)) => {
                    &&& k < i
                    &&& icon_candidate(entries@[k as int], hv, platform, pv)
                    &&& sc == entry_score(entries@[k as int], hv)
                    &&& forall|j: int|
                        0 <= j < i && icon_candidate(#[trigger] entries@[j], hv, platform, pv)
                            ==> entry_score(entries@[j], hv) <= sc
                    &&& forall|j: int|
                        0 <= j < k && icon_candidate(#[trigger] entries@[j], hv, platform, pv)
                            ==> entry_score(entries@[j], hv) < sc
                },
                None => forall|j: int|
                    0 <= j < i ==> !icon_candidate(#[trigger] entries@[j], hv, platform, pv),
            },
        decreases entries@.len() - i,
    {
        let e = &entries[i];
        let within = match prefix {
            Some(p) => is_within_selected_app(e.name.as_str(), p),
            None => true,
        };
        let cs = text::chars_of(e.name.as_str());
        let lower_v = text::lower_exec(&cs);
        let lower = text::string_of(&lower_v);
        let h = any_hint(hints, e.name.as_str());
        let mime_ok = icon_mime(lower.as_str()).is_some();
        let likely = match platform {
            MobilePlatform::Android => text::starts_with_str(&lower_v, "res/") && (
            text::contains_str(&lower_v, "mipmap") || text::contains_str(&lower_v, "drawable")) && (
            text::contains_str(&lower_v, "launcher") || text::contains_str(&lower_v, "app_icon")
                || h),
            MobilePlatform::Ios => text::starts_with_str(&lower_v, "payload/")
                && text::contains_str(&lower_v, ".app/") && (text::contains_str(
                &lower_v,
                "appicon",
            ) || text::contains_str(&lower_v, "icon") || h),
        };
        let candidate = within && !e.is_dir && e.size != 0 && e.size <= MAX_ICON_BYTES && mime_ok
            && likely;
        assert(entries@[i as int] == *e);
        assert(candidate == icon_candidate(entries@[i as int], hv, platform, pv));
        if candidate {
            let sc = icon_score(lower.as_str(), h, e.size);
            match best {
                Some((k, bs)) => {
                    if sc > bs {
                        best = Some((i, sc));
                    }
                },
                None => {
                    best = Some((i, sc));
                },
            }
        }
        i = i + 1;
    }
    match best {
        Some((k, _)) => Some(k),
        None => None,
    }
}

/// Apple's CgBI marker occurs in the image bytes.
pub open spec fn has_cgbi(b: Seq<u8>) -> bool {
    exists|i: int|
        0 <= i && i + 4 <= b.len() && #[trigger] b[i] == 0x43 && b[i + 1] == 0x67 && b[i + 2] == 0x42
            && b[i + 3] == 0x49
}

pub fn contains_cgbi(bytes: &[u8]) -> (r: bool)
    ensures
        r == has_cgbi(bytes@),
{
    if bytes.len() < 4 {
        return false;
    }
    let mut i: usize = 0;
    while i <= bytes.len() - 4
        invariant
            bytes@.len() >= 4,
            forall|j: int|
                0 <= j < i && j + 4 <= bytes@.len() ==> !(#[trigger] bytes@[j] == 0x43 && bytes@[j + 1] == 0x67
                    && bytes@[j + 2] == 0x42 && bytes@[j + 3] == 0x49),
        decreases bytes@.len() - i,
    {
        if bytes[i] == 0x43 && bytes[i + 1] == 0x67 && bytes[i + 2] == 0x42 && bytes[i + 3] == 0x49 {
            return true;
        }
        i = i + 1;
    }
    false
}

/// The icon record for the chosen archive entry whose bytes were read (at
/// most one byte more than the limit): refused above 8 MiB; an Apple CgBI
/// PNG adds a warning; the data is standard base64.
pub fn package_icon(archive_path: &str, declared_size: u64, bytes: &[u8], warnings: &mut Vec<String>) -> (r: Result<
    PackageIcon,
    ApiError,
>)
    ensures
        declared_size > MAX_ICON_BYTES ==> (r matches Err(e) && is_error(
            e,
            "icon_extract_failed"@,
            "Selected icon exceeds the 8 MiB safety limit"@,
        )) && final(warnings)@ == old(warnings)@,
        declared_size <= MAX_ICON_BYTES && bytes@.len() > MAX_ICON_BYTES ==> (r matches Err(e) && is_error(
            e,
            "icon_extract_failed"@,
            "Selected icon exceeds the 8 MiB decompression safety limit"@,
        )) && final(warnings)@ == old(warnings)@,
        declared_size <= MAX_ICON_BYTES && bytes@.len() <= MAX_ICON_BYTES ==> (r matches Ok(icon) && {
            &&& icon.archive_path@ == archive_path@
            &&& icon.mime_type@ == (match mime_of(text::lower(archive_path@)) {
                Some(m) => m,
                None => "application/octet-stream"@,
            })
            &&& icon.data_base64@ == crate::encoding::base64(bytes@, false, true)
            &&& icon.size_bytes == declared_size
        }) && text::string_views(final(warnings)@) == text::string_views(old(warnings)@) + (if has_cgbi(
            bytes@,
        ) {
            seq!["Selected iOS PNG uses Apple's CgBI encoding and may require conversion before preview"@]
        } else {
            Seq::empty()
        }),
{
    if declared_size > MAX_ICON_BYTES {
        return Err(ApiError::new("icon_extract_failed", "Selected icon exceeds the 8 MiB safety limit"));
    }
    if bytes.len() as u64 > MAX_ICON_BYTES {
        return Err(ApiError::new("icon_extract_failed", "Selected icon exceeds the 8 MiB decompression safety limit"));
    }
    let ghost start = text::string_views(warnings@);
    if contains_cgbi(bytes) {
        text::push_str(warnings, "Selected iOS PNG uses Apple's CgBI encoding and may require conversion before preview");
    }
    assert(text::string_views(warnings@) =~= start + (if has_cgbi(bytes@) {
        seq!["Selected iOS PNG uses Apple's CgBI encoding and may require conversion before preview"@]
    } else {
        Seq::empty()
    }));
    let lower = text::string_of(&text::lower_exec(&text::chars_of(archive_path)));
    let mime = match icon_mime(lower.as_str()) {
        Some(m) => m,
        None => "application/octet-stream",
    };
    Ok(PackageIcon {
        archive_path: text::copy_str(archive_path),
        mime_type: text::copy_str(mime),
        data_base64: crate::encoding::encode_standard(bytes),
        size_bytes: declared_size,
    })
}

// ---------------------------------------------------------------------------
// Package files
// ---------------------------------------------------------------------------

/// The largest package Mobius analyzes, 4 GiB.
pub const MAX_PACKAGE_BYTES: u64 = 4294967296;

/// The platform of a package file by its extension, in any letter case.
pub open spec fn platform_of_extension(ext: Seq<char>) -> Option<MobilePlatform> {
    if text::lower(ext) == "apk"@ {
        Some(MobilePlatform::Android)
    } else if text::lower(ext) == "ipa"@ {
        Some(MobilePlatform::Ios)
    } else {
        None
    }
}

/// Checks a package chosen for analysis: a non-empty regular file of at
/// most 4 GiB with an `.apk` or `.ipa` extension.
pub fn package_platform(is_file: bool, len: u64, extension: &str) -> (r: Result<MobilePlatform, ApiError>)
    ensures
        !(is_file && len != 0 && len <= MAX_PACKAGE_BYTES) ==> (r matches Err(e) && is_error(
            e,
            "invalid_mobile_package"@,
            "Package must be a non-empty regular APK or IPA no larger than 4 GiB"@,
        )),
        (is_file && len != 0 && len <= MAX_PACKAGE_BYTES) ==> match platform_of_extension(extension@) {
            Some(p) => r == Ok::<MobilePlatform, ApiError>(p),
            None => r matches Err(e) && is_error(
                e,
                "unsupported_package_type"@,
                "Only .apk and .ipa files are supported"@,
            ),
        },
{
    if !is_file || len == 0 || len > MAX_PACKAGE_BYTES {
        return Err(
            ApiError::new(
                "invalid_mobile_package",
                "Package must be a non-empty regular APK or IPA no larger than 4 GiB",
            ),
        );
    }
    let cs = text::chars_of(extension);
    let lower = text::lower_exec(&cs);
    if text::eq_str(&lower, "apk") {
        Ok(MobilePlatform::Android)
    } else if text::eq_str(&lower, "ipa") {
        Ok(MobilePlatform::Ios)
    } else {
        Err(ApiError::new("unsupported_package_type", "Only .apk and .ipa files are supported"))
    }
}

pub open spec fn expected_extension(platform: MobilePlatform) -> Seq<char> {
    match platform {
        MobilePlatform::Android => "apk"@,
        MobilePlatform::Ios => "ipa"@,
    }
}

/// Checks a package chosen for installation: a regular file whose
/// extension matches the platform in any letter case.
pub fn check_package_file(is_file: bool, extension: &str, platform: MobilePlatform) -> (r: Result<
    (),
    ApiError,
>)
    ensures
        !is_file ==> (r matches Err(e) && is_error(
            e,
            "invalid_mobile_package"@,
            "Selected package is not a regular file"@,
        )),
        is_file && text::lower(extension@) != expected_extension(platform) ==> (r matches Err(e)
            && is_error(
            e,
            "package_platform_mismatch"@,
            match platform {
                MobilePlatform::Android => "Selected Android package must use the .apk extension"@,
                MobilePlatform::Ios => "Selected Ios package must use the .ipa extension"@,
            },
        )),
        is_file && text::lower(extension@) == expected_extension(platform) ==> r is Ok,
{
    if !is_file {
        return Err(ApiError::new("invalid_mobile_package", "Selected package is not a regular file"));
    }
    let cs = text::chars_of(extension);
    let lower = text::lower_exec(&cs);
    let expected = match platform {
        MobilePlatform::Android => "apk",
        MobilePlatform::Ios => "ipa",
    };
    if !text::eq_str(&lower, expected) {
        return Err(
            match platform {
                MobilePlatform::Android => ApiError::new(
                    "package_platform_mismatch",
                    "Selected Android package must use the .apk extension",
                ),
                MobilePlatform::Ios => ApiError::new(
                    "package_platform_mismatch",
                    "Selected Ios package must use the .ipa extension",
                ),
            },
        );
    }
    Ok(())
}

// ---------------------------------------------------------------------------
// Exporting installed APKs
// ---------------------------------------------------------------------------

/// The APK path named by one `pm path` row, or `None` for a row that is
/// not a `package:` row; `Some(None)` marks an invalid path.
pub open spec fn export_row(line: Seq<char>) -> Option<Option<Seq<char>>> {
    match text::strip_prefix(text::trim(line), "package:"@) {
        None => None,
        Some(p) => if validation::remote_path_check(p) is Ok && (match paths::extension(p) {
            Some(e) => text::lower(e) == "apk"@,
            None => false,
        }) {
            Some(Some(p))
        } else {
            Some(None)
        },
    }
}

/// The valid APK paths and the warnings of the `pm path` rows, in order.
pub open spec fn export_rows(ls: Seq<Seq<char>>) -> (Seq<Seq<char>>, Seq<Seq<char>>)
    decreases ls.len(),
{
    if ls.len() == 0 {
        (Seq::empty(), Seq::empty())
    } else {
        let (ps, ws) = export_rows(ls.drop_last());
        match export_row(ls.last()) {
            None => (ps, ws),
            Some(Some(p)) => (ps.push(p), ws),
            Some(None) => (ps, ws.push("The device returned an invalid APK path, which was ignored"@)),
        }
    }
}

/// Reads `pm path <package>` for an export.
pub fn export_apk_paths(stdout: &str) -> (r: (Vec<String>, Vec<String>))
    ensures
        (text::string_views(r.0@), text::string_views(r.1@)) == export_rows(text::lines(stdout@)),
{
    let ls = text::lines_of(stdout);
    let ghost vs = text::views(ls@);
    let mut ps: Vec<String> = Vec::new();
    let mut ws: Vec<String> = Vec::new();
    let mut i: usize = 0;
    while i < ls.len()
        invariant
            vs == text::views(ls@),
            i <= ls@.len(),
            (text::string_views(ps@), text::string_views(ws@)) == export_rows(vs.take(i as int)),
        decreases ls@.len() - i,
    {
        assert(vs.take(i + 1).drop_last() =~= vs.take(i as int));
        assert(vs.take(i + 1).last() == ls@[i as int]@);
        let t = text::trim_exec(&ls[i]);
        if let Some(p) = text::strip_prefix_str(&t, "package:") {
            let ps_s = text::string_of(&p);
            let valid = validation::remote_path(ps_s.as_str()).is_ok();
            let apk = match paths::extension_exec(&p) {
                Some(e) => {
                    let l = text::lower_exec(&e);
                    text::eq_str(&l, "apk")
                },
                None => false,
            };
            if valid && apk {
                text::push_str(&mut ps, ps_s.as_str());
            } else {
                text::push_str(&mut ws, "The device returned an invalid APK path, which was ignored");
            }
        }
        i = i + 1;
    }
    assert(vs.take(ls@.len() as int) =~= vs);
    (ps, ws)
}

pub open spec fn is_base_apk(p: Seq<char>) -> bool {
    text::ends_with(p, "/base.apk"@)
}

/// The paths that are (or are not) base APKs, in order.
pub open spec fn with_base(s: Seq<Seq<char>>, base: bool) -> Seq<Seq<char>>
    decreases s.len(),
{
    if s.len() == 0 {
        Seq::empty()
    } else if is_base_apk(s.last()) == base {
        with_base(s.drop_last(), base).push(s.last())
    } else {
        with_base(s.drop_last(), base)
    }
}

/// Consecutive repeats removed, keeping the first of each run.
pub open spec fn dedup(s: Seq<Seq<char>>) -> Seq<Seq<char>>
    decreases s.len(),
{
    if s.len() < 2 {
        s
    } else if s.last() == s[s.len() - 2] {
        dedup(s.drop_last())
    } else {
        dedup(s.drop_last()).push(s.last())
    }
}

fn filter_base(paths: &[String], base: bool) -> (r: Vec<String>)
    ensures
        text::string_views(r@) == with_base(text::string_views(paths@), base),
{
    let ghost pv = text::string_views(paths@);
    let mut r: Vec<String> = Vec::new();
    let mut i: usize = 0;
    while i < paths.len()
        invariant
            pv == text::string_views(paths@),
            i <= paths@.len(),
            text::string_views(r@) == with_base(pv.take(i as int), base),
        decreases paths@.len() - i,
    {
        assert(pv.take(i + 1).drop_last() =~= pv.take(i as int));
        assert(pv.take(i + 1).last() == paths@[i as int]@);
        let cs = text::chars_of(paths[i].as_str());
        if text::ends_with_str(&cs, "/base.apk") == base {
            let ghost before = text::string_views(r@);
            text::push_str(&mut r, paths[i].as_str());
        }
        i = i + 1;
    }
    assert(pv.take(paths@.len() as int) =~= pv);
    r
}

/// The export order: base APKs first, then splits, each in listed order,
/// with consecutive repeats removed.
pub fn order_export_paths(paths: &[String]) -> (r: Vec<String>)
    ensures
        text::string_views(r@) == dedup(
            with_base(text::string_views(paths@), true) + with_base(
                text::string_views(paths@),
                false,
            ),
        ),
{
    let mut all = filter_base(paths, true);
    let mut rest = filter_base(paths, false);
    let ghost a = text::string_views(all@);
    let ghost b = text::string_views(rest@);
    all.append(&mut rest);
    assert(text::string_views(all@) =~= a + b);
    let ghost sv = a + b;
    let mut r: Vec<String> = Vec::new();
    let mut i: usize = 0;
    while i < all.len()
        invariant
            sv == text::string_views(all@),
            i <= all@.len(),
            text::string_views(r@) == dedup(sv.take(i as int)),
            i > 0 ==> r@.len() > 0 && text::string_views(r@).last() == sv[i - 1],
        decreases all@.len() - i,
    {
        assert(sv.take(i + 1).drop_last() =~= sv.take(i as int));
        assert(sv.take(i + 1).last() == all@[i as int]@);
        let repeat = i > 0 && text::eq_str_str(all[i].as_str(), all[i - 1].as_str());
        assert(sv[i as int] == all@[i as int]@);
        proof {
            if i >= 1 {
                assert(sv.take(i + 1)[i - 1] == sv[i - 1]);
                assert(sv[i - 1] == all@[i - 1]@);
            }
        }
        if !repeat {
            let ghost before = text::string_views(r@);
            text::push_str(&mut r, all[i].as_str());
            assert(text::string_views(r@) == before.push(sv[i as int]));
        }
        i = i + 1;
    }
    assert(sv.take(all@.len() as int) =~= sv);
    r
}

pub open spec fn safe_char(c: char) -> char {
    if text::is_alnum(c) || c == '.' || c == '-' || c == '_' {
        c
    } else {
        '_'
    }
}

/// The local file names of the exported APKs: `<package>.apk` for a single
/// APK, otherwise `<package>-<safe APK name>`.
pub open spec fn local_names(package: Seq<char>, paths: Seq<Seq<char>>) -> Seq<Seq<char>> {
    Seq::new(
        paths.len(),
        |i: int|
            if paths.len() == 1 {
                package + ".apk"@
            } else {
                package + seq!['-'] + (match paths::file_name(paths[i]) {
                    Some(f) => f,
                    None => "package.apk"@,
                }).map_values(|c: char| safe_char(c))
            },
    )
}

/// Two names that differ only in ASCII letter case collide.
pub open spec fn names_collide(names: Seq<Seq<char>>) -> bool {
    exists|i: int, j: int|
        0 <= i < j < names.len() && text::lower(#[trigger] names[i]) == text::lower(#[trigger] names[j])
}

fn safe_name_exec(s: &[char]) -> (r: Vec<char>)
    ensures
        r@ == s@.map_values(|c: char| safe_char(c)),
{
    let mut r: Vec<char> = Vec::new();
    let mut i: usize = 0;
    while i < s.len()
        invariant
            i <= s@.len(),
            r@ == s@.take(i as int).map_values(|c: char| safe_char(c)),
        decreases s@.len() - i,
    {
        let c = s[i];
        let d = if text::is_alnum_exec(c) || c == '.' || c == '-' || c == '_' {
            c
        } else {
            '_'
        };
        r.push(d);
        assert(s@.take(i + 1).map_values(|c: char| safe_char(c)) =~= s@.take(i as int).map_values(
            |c: char| safe_char(c),
        ).push(safe_char(c)));
        i = i + 1;
    }
    assert(s@.take(s@.len() as int) =~= s@);
    r
}

/// Plans the local names of an export; two APKs may not map to the same
/// name in any letter case.
#[verifier::loop_isolation(false)]
pub fn export_local_names(package_name: &str, paths: &[String]) -> (r: Result<Vec<String>, ApiError>)
    ensures
        names_collide(local_names(package_name@, text::string_views(paths@))) ==> (r matches Err(e)
            && is_error(
            e,
            "export_name_collision"@,
            "Two split APK paths resolve to the same safe local file name"@,
        )),
        !names_collide(local_names(package_name@, text::string_views(paths@))) ==> (r matches Ok(
            names,
        ) && text::string_views(names@) == local_names(package_name@, text::string_views(paths@))),
{
    let ghost pv = text::string_views(paths@);
    let ghost want = local_names(package_name@, pv);
    let mut names: Vec<String> = Vec::new();
    let mut lowered: Vec<Vec<char>> = Vec::new();
    let mut i: usize = 0;
    while i < paths.len()
        invariant
            pv == text::string_views(paths@),
            want == local_names(package_name@, pv),
            i <= paths@.len(),
            text::string_views(names@) == want.take(i as int),
            text::views(lowered@) == want.take(i as int).map_values(|n: Seq<char>| text::lower(n)),
            !names_collide(want.take(i as int)),
        decreases paths@.len() - i,
    {
        let name: String = if paths.len() == 1 {
            text::concat_strs(package_name, ".apk")
        } else {
            let cs = text::chars_of(paths[i].as_str());
            assert(cs@ == pv[i as int]);
            let base = match paths::file_name_exec(&cs) {
                Some(f) => f,
                None => text::chars_of("package.apk"),
            };
            let safe = safe_name_exec(&base);
            let mut c = text::chars_of(package_name);
            c.push('-');
            text::append(&mut c, &safe);
            text::string_of(&c)
        };
        assert(name@ == want[i as int]);
        let nc = text::chars_of(name.as_str());
        let low = text::lower_exec(&nc);
        assert(lowered@.len() == i) by {
            assert(text::views(lowered@).len() == lowered@.len());
        }
        let mut k: usize = 0;
        while k < lowered.len()
            invariant
                k <= lowered@.len(),
                lowered@.len() == i,
                text::views(lowered@) == want.take(i as int).map_values(|n: Seq<char>| text::lower(n)),
                low@ == text::lower(want[i as int]),
                forall|m: int| 0 <= m < k ==> text::lower(want[m]) != low@,
                i < paths@.len(),
                want.len() == paths@.len(),
            decreases lowered@.len() - k,
        {
            assert(text::views(lowered@)[k as int] == lowered@[k as int]@);
            assert(text::views(lowered@)[k as int] == text::lower(want.take(i as int)[k as int]));
            assert(want.take(i as int)[k as int] == want[k as int]);
            if text::seq_eq(&lowered[k], &low) {
                assert(text::lower(want[k as int]) == text::lower(want[i as int]));
                assert(names_collide(want)) by {
                    assert(text::lower(want[k as int]) == text::lower(want[i as int]));
                }
                return Err(
                    ApiError::new(
                        "export_name_collision",
                        "Two split APK paths resolve to the same safe local file name",
                    ),
                );
            }
            k = k + 1;
        }
        let ghost before_l = text::views(lowered@);
        assert(want.take(i + 1) =~= want.take(i as int).push(want[i as int]));
        lowered.push(low);
        assert(text::views(lowered@) =~= before_l.push(low@));
        assert(want.take(i + 1).map_values(|n: Seq<char>| text::lower(n)) =~= want.take(i as int).map_values(
            |n: Seq<char>| text::lower(n),
        ).push(text::lower(want[i as int])));
        assert(text::views(lowered@) =~= want.take(i + 1).map_values(|n: Seq<char>| text::lower(n)));
        let ghost before_n = text::string_views(names@);
        names.push(name);
        assert(text::string_views(names@) =~= want.take(i + 1));
        assert(!names_collide(want.take(i + 1))) by {
            if names_collide(want.take(i + 1)) {
                let (a, b) = choose|a: int, b: int|
                    0 <= a < b < want.take(i + 1).len() && text::lower(
                        #[trigger] want.take(i + 1)[a],
                    ) == text::lower(#[trigger] want.take(i + 1)[b]);
                if b < i {
                    assert(want.take(i as int)[a] == want.take(i + 1)[a]);
                    assert(want.take(i as int)[b] == want.take(i + 1)[b]);
                }
            }
        }
        i = i + 1;
    }
    assert(want.take(paths@.len() as int) =~= want);
    Ok(names)
}

/// The record of one exported APK: the first file and every base APK are
/// `base`, the others `split`.
pub fn exported_file(index: usize, remote_path: String, local_path: String, size_bytes: Option<u64>) -> (r:
    ExportedAndroidFile)
    ensures
        r.kind@ == (if index == 0 || is_base_apk(remote_path@) {
            "base"@
        } else {
            "split"@
        }),
        r.remote_path == remote_path,
        r.local_path == local_path,
        r.size_bytes == size_bytes,
{
    let cs = text::chars_of(remote_path.as_str());
    let kind = if index == 0 || text::ends_with_str(&cs, "/base.apk") {
        text::copy_str("base")
    } else {
        text::copy_str("split")
    };
    ExportedAndroidFile { kind, remote_path, local_path, size_bytes }
}

/// The message of a finished export.
pub fn export_message(count: usize) -> (r: String)
    ensures
        r@ == "Exported "@ + text::decimal(count as nat) + " APK file(s)"@,
{
    let d = text::decimal_string(count as u64);
    let mut c = text::chars_of("Exported ");
    text::append_str(&mut c, d.as_str());
    text::append_str(&mut c, " APK file(s)");
    text::string_of(&c)
}

// ---------------------------------------------------------------------------
// ZIP structure checks before an archive is opened
// ---------------------------------------------------------------------------

pub open spec fn le16(b: Seq<u8>, at: int) -> nat {
    b[at + 1] as nat * 256 + b[at] as nat
}

pub open spec fn le32(b: Seq<u8>, at: int) -> nat {
    u32_of(b.subrange(at, at + 4), ByteOrder::Little)
}

/// An end-of-central-directory record starts at `o` of the file tail and
/// its comment runs exactly to the end of the file.
pub open spec fn eocd_at(tail: Seq<u8>, o: int) -> bool {
    0 <= o && o + 22 <= tail.len() && tail[o] == 0x50 && tail[o + 1] == 0x4b && tail[o + 2] == 0x05
        && tail[o + 3] == 0x06 && o + 22 + le16(tail, o + 20) == tail.len()
}

/// Finds the last end-of-central-directory record in the file tail.
pub fn find_eocd(tail: &[u8]) -> (r: Option<usize>)
    ensures
        match r {
            Some(o) => eocd_at(tail@, o as int) && forall|p: int|
                o < p && #[trigger] eocd_at(tail@, p) ==> false,
            None => forall|p: int| !#[trigger] eocd_at(tail@, p),
        },
{
    if tail.len() < 22 {
        return None;
    }
    let mut o: usize = tail.len() - 22;
    loop
        invariant
            tail@.len() >= 22,
            o + 22 <= tail@.len(),
            forall|p: int| o < p && #[trigger] eocd_at(tail@, p) ==> false,
        decreases o,
    {
        let sig = tail[o] == 0x50 && tail[o + 1] == 0x4b && tail[o + 2] == 0x05 && tail[o + 3]
            == 0x06;
        let comment = (tail[o + 21] as usize) * 256 + tail[o + 20] as usize;
        if sig && comment == tail.len() - 22 - o {
            return Some(o);
        }
        assert(!eocd_at(tail@, o as int));
        if o == 0 {
            return None;
        }
        o = o - 1;
    }
}

/// The entry count, central-directory size and offset of the record,
/// refusing archives split over several disks.
pub fn eocd_fields(tail: &[u8], o: usize) -> (r: Result<(u64, u64, u64), ApiError>)
    requires
        eocd_at(tail@, o as int),
    ensures
        (le16(tail@, o + 4) != 0 || le16(tail@, o + 6) != 0) ==> (r matches Err(e) && is_error(
            e,
            "unsupported_package_archive"@,
            "Multi-disk ZIP packages are not supported"@,
        )),
        (le16(tail@, o + 4) == 0 && le16(tail@, o + 6) == 0) ==> r == Ok::<(u64, u64, u64), ApiError>(
            (le16(tail@, o + 10) as u64, le32(tail@, o + 12) as u64, le32(tail@, o + 16) as u64),
        ),
{
    let n = tail.len();
    assert(o + 22 <= n);
    let disk = (tail[o + 5] as u16) * 256 + tail[o + 4] as u16;
    let start_disk = (tail[o + 7] as u16) * 256 + tail[o + 6] as u16;
    if disk != 0 || start_disk != 0 {
        return Err(
            ApiError::new("unsupported_package_archive", "Multi-disk ZIP packages are not supported"),
        );
    }
    let count = (tail[o + 11] as u64) * 256 + tail[o + 10] as u64;
    let size = match read_u32(&slice_bytes(tail, o + 12, o + 16), ByteOrder::Little) {
        Some(v) => v as u64,
        None => 0,
    };
    let offset = match read_u32(&slice_bytes(tail, o + 16, o + 20), ByteOrder::Little) {
        Some(v) => v as u64,
        None => 0,
    };
    Ok((count, size, offset))
}

/// A field holds its maximum value: the real values are in a ZIP64 record.
pub open spec fn zip64_needed(count: u64, size: u64, offset: u64) -> bool {
    count == 0xffff || size == 0xffff_ffff || offset == 0xffff_ffff
}

/// How many bytes at the end of an archive of `file_len` bytes are searched
/// for the end-of-central-directory record: up to the record and the
/// longest comment (65 557 bytes); an archive under 22 bytes has no record.
pub fn zip_tail_length(file_len: u64) -> (r: Result<u64, ApiError>)
    ensures
        file_len < 22 ==> (r matches Err(e) && is_error(
            e,
            "invalid_package_archive"@,
            "ZIP end-of-central-directory record is missing"@,
        )),
        file_len >= 22 ==> r == Ok::<u64, ApiError>(if file_len < 65557 { file_len } else { 65557 }),
{
    if file_len < 22 {
        return Err(ApiError::new("invalid_package_archive", "ZIP end-of-central-directory record is missing"));
    }
    Ok(if file_len < 65557 { file_len } else { 65557 })
}

/// The offset of the last end-of-central-directory record in the tail.
pub fn locate_eocd(tail: &[u8]) -> (r: Result<usize, ApiError>)
    ensures
        match r {
            Ok(o) => eocd_at(tail@, o as int) && forall|p: int| o < p && #[trigger] eocd_at(tail@, p) ==> false,
            Err(e) => is_error(
                e,
                "invalid_package_archive"@,
                "ZIP end-of-central-directory record is missing or malformed"@,
            ) && forall|p: int| !#[trigger] eocd_at(tail@, p),
        },
{
    match find_eocd(tail) {
        Some(o) => Ok(o),
        None => Err(
            ApiError::new("invalid_package_archive", "ZIP end-of-central-directory record is missing or malformed"),
        ),
    }
}

/// Where the 20-byte ZIP64 locator starts: just before the record found at
/// `eocd_offset` in the last `tail_len` bytes; missing when the record
/// starts before byte 20.
pub fn zip64_locator_position(file_len: u64, tail_len: u64, eocd_offset: u64) -> (r: Result<u64, ApiError>)
    requires
        tail_len <= file_len,
        eocd_offset <= tail_len,
    ensures
        file_len - tail_len + eocd_offset < 20 ==> (r matches Err(e) && is_error(
            e,
            "invalid_package_archive"@,
            "ZIP64 locator is missing"@,
        )),
        file_len - tail_len + eocd_offset >= 20 ==> r == Ok::<u64, ApiError>(
            (file_len - tail_len + eocd_offset - 20) as u64,
        ),
{
    let absolute = file_len - tail_len + eocd_offset;
    if absolute < 20 {
        return Err(ApiError::new("invalid_package_archive", "ZIP64 locator is missing"));
    }
    Ok(absolute - 20)
}

pub fn needs_zip64(count: u64, size: u64, offset: u64) -> (r: bool)
    ensures
        r == zip64_needed(count, size, offset),
{
    count == 0xffff || size == 0xffff_ffff || offset == 0xffff_ffff
}

/// Reads the ZIP64 locator: the offset of the ZIP64 record on a single disk.
pub fn zip64_record_offset(locator: &[u8]) -> (r: Result<u64, ApiError>)
    requires
        locator@.len() == 20,
    ensures
        ({
            let ok = locator@[0] == 0x50 && locator@[1] == 0x4b && locator@[2] == 0x06
                && locator@[3] == 0x07 && le32(locator@, 4) == 0 && le32(locator@, 16) == 1;
            &&& ok ==> r == Ok::<u64, ApiError>(le_value(locator@.subrange(8, 16)) as u64)
            &&& !ok ==> (r matches Err(e) && is_error(
                e,
                "invalid_package_archive"@,
                "ZIP64 locator is malformed or describes multiple disks"@,
            ))
        }),
{
    let disk = read_u32(&slice_bytes(locator, 4, 8), ByteOrder::Little);
    let disks = read_u32(&slice_bytes(locator, 16, 20), ByteOrder::Little);
    if !(locator[0] == 0x50 && locator[1] == 0x4b && locator[2] == 0x06 && locator[3] == 0x07)
        || disk != Some(0u32) || disks != Some(1u32) {
        return Err(
            ApiError::new(
                "invalid_package_archive",
                "ZIP64 locator is malformed or describes multiple disks",
            ),
        );
    }
    match read_le_u64(&slice_bytes(locator, 8, 16)) {
        Some(v) => Ok(v),
        None => Err(ApiError::new("invalid_package_archive", "ZIP64 record offset is malformed")),
    }
}

/// Reads the ZIP64 record: entry count, central-directory size and offset,
/// on a single disk.
pub fn zip64_fields(record: &[u8]) -> (r: Result<(u64, u64, u64), ApiError>)
    requires
        record@.len() == 56,
    ensures
        ({
            let ok = record@[0] == 0x50 && record@[1] == 0x4b && record@[2] == 0x06 && record@[3]
                == 0x06 && le32(record@, 16) == 0 && le32(record@, 20) == 0;
            &&& ok ==> r == Ok::<(u64, u64, u64), ApiError>(
                (
                    le_value(record@.subrange(32, 40)) as u64,
                    le_value(record@.subrange(40, 48)) as u64,
                    le_value(record@.subrange(48, 56)) as u64,
                ),
            )
            &&& !ok ==> (r matches Err(e) && is_error(
                e,
                "invalid_package_archive"@,
                "ZIP64 central-directory record is malformed or uses multiple disks"@,
            ))
        }),
{
    let a = read_u32(&slice_bytes(record, 16, 20), ByteOrder::Little);
    let b = read_u32(&slice_bytes(record, 20, 24), ByteOrder::Little);
    if !(record[0] == 0x50 && record[1] == 0x4b && record[2] == 0x06 && record[3] == 0x06) || a
        != Some(0u32) || b != Some(0u32) {
        return Err(
            ApiError::new(
                "invalid_package_archive",
                "ZIP64 central-directory record is malformed or uses multiple disks",
            ),
        );
    }
    let count = read_le_u64(&slice_bytes(record, 32, 40));
    let size = read_le_u64(&slice_bytes(record, 40, 48));
    let offset = read_le_u64(&slice_bytes(record, 48, 56));
    match (count, size, offset) {
        (Some(c), Some(s), Some(o)) => Ok((c, s, o)),
        _ => Ok((u64::MAX, u64::MAX, u64::MAX)),
    }
}

/// The largest number of archive entries, and of central-directory bytes.
pub const MAX_ARCHIVE_ENTRIES: u64 = 50000;

pub const MAX_CENTRAL_DIRECTORY_BYTES: u64 = 67108864;

/// The central directory is within the safety limits and inside the file.
pub fn check_central_directory(count: u64, size: u64, offset: u64, file_len: u64) -> (r: Result<
    (),
    ApiError,
>)
    ensures
        count > MAX_ARCHIVE_ENTRIES ==> (r matches Err(e) && is_error(
            e,
            "archive_too_large"@,
            "Package contains too many ZIP entries"@,
        )),
        count <= MAX_ARCHIVE_ENTRIES && (size > MAX_CENTRAL_DIRECTORY_BYTES || offset + size
            > file_len) ==> (r matches Err(e) && is_error(
            e,
            "archive_too_large"@,
            "ZIP central directory exceeds the Mobius safety limit"@,
        )),
        count <= MAX_ARCHIVE_ENTRIES && size <= MAX_CENTRAL_DIRECTORY_BYTES && offset + size
            <= file_len ==> r is Ok,
{
    if count > MAX_ARCHIVE_ENTRIES {
        return Err(ApiError::new("archive_too_large", "Package contains too many ZIP entries"));
    }
    let end_invalid = match offset.checked_add(size) {
        Some(end) => end > file_len,
        None => true,
    };
    if size > MAX_CENTRAL_DIRECTORY_BYTES || end_invalid {
        return Err(
            ApiError::new("archive_too_large", "ZIP central directory exceeds the Mobius safety limit"),
        );
    }
    Ok(())
}

} // verus!
