//! Device discovery: reading `adb devices -l`, `getprop`, `idevice_id` and
//! `ideviceinfo` output, and summarising Android and iOS devices for the
//! user interface.
use crate::error::{is_error, is_process_error, is_warnings_error, ApiError, ErrorDetails, ProcessOutput};
use crate::models::{AndroidDevice, Device, IosDevice};
use crate::text;
use vstd::prelude::*;

verus! {

/// A trimmed line of `adb devices -l` that describes a device.
pub open spec fn adb_device_line(t: Seq<char>) -> bool {
    &&& t.len() > 0
    &&& !text::starts_with(t, "List of devices"@)
    &&& !text::starts_with(t, seq!['*'])
}

/// The whitespace-separated fields of each device row, in order.
pub open spec fn adb_rows(ls: Seq<Seq<char>>) -> Seq<Seq<Seq<char>>>
    decreases ls.len(),
{
    if ls.len() == 0 {
        Seq::empty()
    } else {
        let t = text::trim(ls.last());
        adb_rows(ls.drop_last()) + if adb_device_line(t) && text::words(t).len() > 0 {
            seq![text::words(t)]
        } else {
            Seq::empty()
        }
    }
}

/// The `key:value` attributes among the fields, split at the first colon.
pub open spec fn field_pairs(fields: Seq<Seq<char>>) -> Seq<(Seq<char>, Seq<char>)>
    decreases fields.len(),
{
    if fields.len() == 0 {
        Seq::empty()
    } else {
        field_pairs(fields.drop_last()) + match text::split_once(fields.last(), seq![':']) {
            Some(kv) => seq![kv],
            None => Seq::empty(),
        }
    }
}

/// How an adb serial reaches the host.
pub open spec fn adb_connection(serial: Seq<char>) -> Seq<char> {
    if text::starts_with(serial, "emulator-"@) {
        "emulator"@
    } else if text::contains(serial, seq![':']) {
        "network"@
    } else {
        "usb"@
    }
}

/// `d` is the device described by the row fields `w`.
pub open spec fn adb_device_from(d: AndroidDevice, w: Seq<Seq<char>>) -> bool {
    let attrs = if w.len() >= 2 {
        field_pairs(w.skip(2))
    } else {
        Seq::empty()
    };
    &&& d.serial@ == w[0]
    &&& d.state@ == (if w.len() > 1 {
        w[1]
    } else {
        "unknown"@
    })
    &&& text::opt_view(d.product) == text::lookup(attrs, "product"@)
    &&& text::opt_view(d.model) == text::lookup(attrs, "model"@)
    &&& text::opt_view(d.device) == text::lookup(attrs, "device"@)
    &&& text::opt_view(d.transport_id) == text::lookup(attrs, "transport_id"@)
    &&& d.connection@ == adb_connection(w[0])
}

/// The first `:` of `s` at or after `i` is at `k`.
proof fn lemma_find_first_colon(s: Seq<char>, i: int, k: int)
    requires
        0 <= i <= k < s.len(),
        s[k] == ':',
        forall|j: int| i <= j < k ==> s[j] != ':',
    ensures
        text::find_from(s, seq![':'], i) == Some(k),
    decreases k - i,
{
    if i == k {
        assert(s.subrange(k, k + 1) =~= seq![':']);
    } else {
        assert(!text::matches_at(s, seq![':'], i)) by {
            if text::matches_at(s, seq![':'], i) {
                assert(s.subrange(i, i + 1)[0] == s[i]);
            }
        }
        lemma_find_first_colon(s, i + 1, k);
    }
}

/// A field `product:X` is the attribute `product` with value `X`, and only
/// a field that starts with `product:` is the attribute `product`.
proof fn lemma_product_field(f: Seq<char>, x: Seq<char>)
    ensures
        text::split_once("product:"@ + x, seq![':']) == Some(("product"@, x)),
        text::split_once(f, seq![':']) matches Some(kv) && kv.0 == "product"@ ==> text::starts_with(
            f,
            "product:"@,
        ),
{
    reveal_strlit("product:");
    reveal_strlit("product");
    let s = "product:"@ + x;
    assert forall|j: int| 0 <= j < 7 implies s[j] != ':' by {
        assert(s[j] == "product:"@[j]);
    }
    assert(s[7] == ':');
    lemma_find_first_colon(s, 0, 7);
    assert(s.take(7) =~= "product"@);
    assert(s.skip(8) =~= x);
    if text::split_once(f, seq![':']) matches Some(kv) && kv.0 == "product"@ {
        let i = text::find(f, seq![':'])->0;
        text::lemma_find_from_bounds(f, seq![':'], 0);
        assert(f.take(i) == "product"@);
        assert(i == 7);
        assert(f.subrange(7, 8)[0] == ':');
        assert(f.take(8) =~= "product:"@);
    }
}

/// `lookup` finds the value of the one attribute with the key.
proof fn lemma_lookup_single_field(fs: Seq<Seq<char>>, j: int, key: Seq<char>, v: Seq<char>)
    requires
        0 <= j < fs.len(),
        text::split_once(fs[j], seq![':']) == Some((key, v)),
        forall|i: int| 0 <= i < fs.len() && i != j ==> !(text::split_once(#[trigger] fs[i], seq![':']) matches Some(kv)
            && kv.0 == key),
    ensures
        text::lookup(field_pairs(fs), key) == Some(v),
    decreases fs.len(),
{
    let prev = fs.drop_last();
    let last = fs.last();
    let pp = field_pairs(prev);
    if j == fs.len() - 1 {
        assert((pp + seq![(key, v)]).drop_last() =~= pp);
    } else {
        assert forall|i: int| 0 <= i < prev.len() && i != j implies !(text::split_once(#[trigger] prev[i], seq![':']) matches Some(kv)
            && kv.0 == key) by {
            assert(prev[i] == fs[i]);
        }
        lemma_lookup_single_field(prev, j, key, v);
        match text::split_once(last, seq![':']) {
            Some(kv) => {
                assert((pp + seq![kv]).drop_last() =~= pp);
                assert((pp + seq![kv]).last() == kv);
            },
            None => {
                assert(pp + Seq::<(Seq<char>, Seq<char>)>::empty() =~= pp);
            },
        }
    }
}

/// A device's product is the value of its row's `product:` attribute,
/// whatever its other attributes (such as `device:`) say.
pub proof fn lemma_adb_product_attribute(d: AndroidDevice, w: Seq<Seq<char>>, k: int, x: Seq<char>)
    requires
        adb_device_from(d, w),
        2 <= k < w.len(),
        w[k] == "product:"@ + x,
        forall|j: int| 2 <= j < w.len() && j != k ==> !text::starts_with(#[trigger] w[j], "product:"@),
    ensures
        text::opt_view(d.product) == Some(x),
{
    let fs = w.skip(2);
    lemma_product_field(w[k], x);
    assert(fs[k - 2] == w[k]);
    assert forall|i: int| 0 <= i < fs.len() && i != k - 2 implies !(text::split_once(#[trigger] fs[i], seq![':']) matches Some(kv)
        && kv.0 == "product"@) by {
        assert(fs[i] == w[i + 2]);
        lemma_product_field(fs[i], x);
    }
    lemma_lookup_single_field(fs, k - 2, "product"@, x);
}

fn field_pairs_exec(fields: &[Vec<char>], start: usize) -> (r: Vec<(String, String)>)
    requires
        start <= fields@.len(),
    ensures
        text::pair_views(r@) == field_pairs(text::views(fields@).skip(start as int)),
{
    let ghost fs = text::views(fields@).skip(start as int);
    let mut r: Vec<(String, String)> = Vec::new();
    let mut i: usize = start;
    let colon: Vec<char> = vec![':'];
    assert(colon@ =~= seq![':']);
    while i < fields.len()
        invariant
            start <= i <= fields@.len(),
            fs == text::views(fields@).skip(start as int),
            colon@ == seq![':'],
            text::pair_views(r@) == field_pairs(fs.take(i - start)),
        decreases fields@.len() - i,
    {
        let ghost before = r@;
        assert(fs.take(i + 1 - start).drop_last() =~= fs.take(i - start));
        assert(fs.take(i + 1 - start).last() == fields@[i as int]@);
        match text::split_once_exec(&fields[i], &colon) {
            Some((k, v)) => {
                r.push((text::string_of(&k), text::string_of(&v)));
                assert(text::pair_views(r@) =~= text::pair_views(before) + seq![(k@, v@)]);
            },
            None => {
                assert(text::pair_views(r@) =~= text::pair_views(before) + Seq::<
                    (Seq<char>, Seq<char>),
                >::empty());
            },
        }
        i = i + 1;
    }
    assert(fs.take(fields@.len() - start) =~= fs);
    r
}

fn adb_device_of_fields(w: &[Vec<char>]) -> (d: AndroidDevice)
    requires
        w@.len() > 0,
    ensures
        adb_device_from(d, text::views(w@)),
{
    let ghost ws = text::views(w@);
    let serial = text::string_of(&w[0]);
    let state = if w.len() > 1 {
        text::string_of(&w[1])
    } else {
        text::copy_str("unknown")
    };
    let attrs = if w.len() >= 2 {
        field_pairs_exec(w, 2)
    } else {
        let v: Vec<(String, String)> = Vec::new();
        assert(text::pair_views(v@) =~= Seq::<(Seq<char>, Seq<char>)>::empty());
        v
    };
    let colon: Vec<char> = vec![':'];
    assert(colon@ =~= seq![':']);
    let connection = if text::starts_with_str(&w[0], "emulator-") {
        text::copy_str("emulator")
    } else if text::contains_exec(&w[0], &colon) {
        text::copy_str("network")
    } else {
        text::copy_str("usb")
    };
    AndroidDevice {
        serial,
        state,
        product: text::lookup_exec(&attrs, "product"),
        model: text::lookup_exec(&attrs, "model"),
        device: text::lookup_exec(&attrs, "device"),
        transport_id: text::lookup_exec(&attrs, "transport_id"),
        connection,
    }
}

/// Reads `adb devices -l`: one device per row, skipping the banner and
/// daemon messages.
pub fn parse_adb_devices(output: &str) -> (r: Vec<AndroidDevice>)
    ensures
        r@.len() == adb_rows(text::lines(output@)).len(),
        forall|i: int|
            0 <= i < r@.len() ==> adb_device_from(#[trigger] r@[i], adb_rows(text::lines(output@))[i]),
{
    let ls = text::lines_of(output);
    let ghost vs = text::views(ls@);
    let mut r: Vec<AndroidDevice> = Vec::new();
    let mut i: usize = 0;
    while i < ls.len()
        invariant
            vs == text::views(ls@),
            i <= ls@.len(),
            r@.len() == adb_rows(vs.take(i as int)).len(),
            forall|j: int|
                0 <= j < r@.len() ==> adb_device_from(#[trigger] r@[j], adb_rows(vs.take(i as int))[j]),
        decreases ls@.len() - i,
    {
        let ghost prev = adb_rows(vs.take(i as int));
        assert(vs.take(i + 1).drop_last() =~= vs.take(i as int));
        assert(vs.take(i + 1).last() == ls@[i as int]@);
        let t = text::trim_exec(&ls[i]);
        let keep = t.len() > 0 && !text::starts_with_str(&t, "List of devices") && !(t[0] == '*');
        proof {
            if t@.len() > 0 {
                if text::starts_with(t@, seq!['*']) {
                    assert(t@.take(1)[0] == t@[0]);
                }
                if t@[0] == '*' {
                    assert(t@.take(1) =~= seq!['*']);
                }
            }
        }
        if keep {
            let w = text::words_exec(&t);
            if w.len() > 0 {
                let d = adb_device_of_fields(&w);
                r.push(d);
                assert(adb_rows(vs.take(i + 1)) =~= prev + seq![text::views(w@)]);
            } else {
                assert(adb_rows(vs.take(i + 1)) =~= prev + Seq::<Seq<Seq<char>>>::empty());
            }
        } else {
            assert(adb_rows(vs.take(i + 1)) =~= prev + Seq::<Seq<Seq<char>>>::empty());
        }
        i = i + 1;
    }
    assert(vs.take(ls@.len() as int) =~= vs);
    r
}

/// The property set by one `getprop` line `[key]: [value]`.
pub open spec fn getprop_entry(line: Seq<char>) -> Seq<(Seq<char>, Seq<char>)> {
    match text::strip_prefix(line, seq!['['])  {
        Some(rest) => match text::split_once(rest, "]: ["@) {
            Some((k, v)) => seq![(k, text::trim_end_char(v, ']'))],
            None => Seq::empty(),
        },
        None => Seq::empty(),
    }
}

/// The properties listed by `getprop`, in order.
pub open spec fn getprop_pairs(ls: Seq<Seq<char>>) -> Seq<(Seq<char>, Seq<char>)>
    decreases ls.len(),
{
    if ls.len() == 0 {
        Seq::empty()
    } else {
        getprop_pairs(ls.drop_last()) + getprop_entry(ls.last())
    }
}

/// Reads `getprop` output into key/value pairs; a later line for the same
/// key overrides an earlier one under `text::lookup`.
pub fn parse_getprop(stdout: &str) -> (r: Vec<(String, String)>)
    ensures
        text::pair_views(r@) == getprop_pairs(text::lines(stdout@)),
{
    let ls = text::lines_of(stdout);
    let ghost vs = text::views(ls@);
    let mut r: Vec<(String, String)> = Vec::new();
    let mut i: usize = 0;
    while i < ls.len()
        invariant
            vs == text::views(ls@),
            i <= ls@.len(),
            text::pair_views(r@) == getprop_pairs(vs.take(i as int)),
        decreases ls@.len() - i,
    {
        let ghost before = r@;
        assert(vs.take(i + 1).drop_last() =~= vs.take(i as int));
        assert(vs.take(i + 1).last() == ls@[i as int]@);
        let mut added = false;
        if let Some(rest) = text::strip_prefix_str(&ls[i], "[") {
            if let Some((k, v)) = text::split_once_str(&rest, "]: [") {
                let value = text::trim_end_char_exec(&v, ']');
                r.push((text::string_of(&k), text::string_of(&value)));
                assert(text::pair_views(r@) =~= text::pair_views(before) + seq![(k@, value@)]);
                added = true;
            }
        }
        proof {
            reveal_strlit("[");
            assert("["@ =~= seq!['[']);
            if !added {
                assert(text::pair_views(r@) =~= text::pair_views(before) + Seq::<
                    (Seq<char>, Seq<char>),
                >::empty());
            }
        }
        i = i + 1;
    }
    assert(vs.take(ls@.len() as int) =~= vs);
    r
}

/// The property set by one `ideviceinfo` line `Key: value`.
pub open spec fn info_entry(line: Seq<char>) -> Seq<(Seq<char>, Seq<char>)> {
    match text::split_once(line, seq![':']) {
        Some((k, v)) => if text::trim(k).len() > 0 {
            seq![(text::trim(k), text::trim(v))]
        } else {
            Seq::empty()
        },
        None => Seq::empty(),
    }
}

pub open spec fn info_pairs(ls: Seq<Seq<char>>) -> Seq<(Seq<char>, Seq<char>)>
    decreases ls.len(),
{
    if ls.len() == 0 {
        Seq::empty()
    } else {
        info_pairs(ls.drop_last()) + info_entry(ls.last())
    }
}

/// Reads `ideviceinfo` output into trimmed key/value pairs with non-empty keys.
pub fn parse_device_properties(stdout: &str) -> (r: Vec<(String, String)>)
    ensures
        text::pair_views(r@) == info_pairs(text::lines(stdout@)),
{
    let ls = text::lines_of(stdout);
    let ghost vs = text::views(ls@);
    let colon: Vec<char> = vec![':'];
    assert(colon@ =~= seq![':']);
    let mut r: Vec<(String, String)> = Vec::new();
    let mut i: usize = 0;
    while i < ls.len()
        invariant
            vs == text::views(ls@),
            colon@ == seq![':'],
            i <= ls@.len(),
            text::pair_views(r@) == info_pairs(vs.take(i as int)),
        decreases ls@.len() - i,
    {
        let ghost before = r@;
        assert(vs.take(i + 1).drop_last() =~= vs.take(i as int));
        assert(vs.take(i + 1).last() == ls@[i as int]@);
        let mut added = false;
        if let Some((k, v)) = text::split_once_exec(&ls[i], &colon) {
            let key = text::trim_exec(&k);
            if key.len() > 0 {
                let value = text::trim_exec(&v);
                r.push((text::string_of(&key), text::string_of(&value)));
                assert(text::pair_views(r@) =~= text::pair_views(before) + seq![(key@, value@)]);
                added = true;
            }
        }
        if !added {
            assert(text::pair_views(r@) =~= text::pair_views(before) + Seq::<
                (Seq<char>, Seq<char>),
            >::empty());
        }
        i = i + 1;
    }
    assert(vs.take(ls@.len() as int) =~= vs);
    r
}

/// The non-blank trimmed lines of a listing, in order.
pub open spec fn nonblank_lines(ls: Seq<Seq<char>>) -> Seq<Seq<char>>
    decreases ls.len(),
{
    if ls.len() == 0 {
        Seq::empty()
    } else {
        nonblank_lines(ls.drop_last()) + if text::trim(ls.last()).len() > 0 {
            seq![text::trim(ls.last())]
        } else {
            Seq::empty()
        }
    }
}

/// The device identifiers printed by `idevice_id`: every non-blank line,
/// trimmed, nothing else.
pub fn ios_identifiers(output: &str) -> (r: Vec<String>)
    ensures
        text::string_views(r@) == nonblank_lines(text::lines(output@)),
{
    let ls = text::lines_of(output);
    let ghost vs = text::views(ls@);
    let mut r: Vec<String> = Vec::new();
    let mut i: usize = 0;
    while i < ls.len()
        invariant
            vs == text::views(ls@),
            i <= ls@.len(),
            text::string_views(r@) == nonblank_lines(vs.take(i as int)),
        decreases ls@.len() - i,
    {
        let ghost before = r@;
        assert(vs.take(i + 1).drop_last() =~= vs.take(i as int));
        assert(vs.take(i + 1).last() == ls@[i as int]@);
        let t = text::trim_exec(&ls[i]);
        if t.len() > 0 {
            r.push(text::string_of(&t));
            assert(text::string_views(r@) =~= text::string_views(before) + seq![t@]);
        } else {
            assert(text::string_views(r@) =~= text::string_views(before) + Seq::<
                Seq<char>,
            >::empty());
        }
        i = i + 1;
    }
    assert(vs.take(ls@.len() as int) =~= vs);
    r
}

/// The root probe printed `1`.
pub fn root_probe_passed(stdout: &str) -> (r: bool)
    ensures
        r == (text::trim(stdout@) == "1"@),
{
    let cs = text::chars_of(stdout);
    let t = text::trim_exec(&cs);
    text::eq_str(&t, "1")
}

/// The user-facing state of an adb device state.
pub open spec fn android_state(state: Seq<char>) -> Seq<char> {
    if state == "device"@ || state == "recovery"@ || state == "sideload"@ {
        "online"@
    } else if state == "unauthorized"@ {
        "unauthorized"@
    } else if state == "offline"@ {
        "offline"@
    } else {
        "connecting"@
    }
}

pub open spec fn android_transport(connection: Seq<char>) -> Seq<char> {
    if connection == "network"@ {
        "wifi"@
    } else if connection == "emulator"@ {
        "emulator"@
    } else {
        "usb"@
    }
}

pub open spec fn or_else(a: Option<Seq<char>>, b: Option<Seq<char>>) -> Option<Seq<char>> {
    match a {
        Some(x) => Some(x),
        None => b,
    }
}

/// `d` summarises the adb device `a`; `props` and `rooted` are taken into
/// account only for a device in the `device` state.
pub open spec fn android_summary(
    d: Device,
    a: AndroidDevice,
    props: Seq<(Seq<char>, Seq<char>)>,
    rooted: Option<bool>,
) -> bool {
    let online = a.state@ == "device"@;
    let ps = if online {
        props
    } else {
        Seq::empty()
    };
    let model = match or_else(text::lookup(ps, "ro.product.model"@), text::opt_view(a.model)) {
        Some(m) => Some(text::replace_char(m, '_', seq![' '])),
        None => None,
    };
    &&& d.id@ == a.serial@
    &&& d.name@ == (match model {
        Some(m) => m,
        None => a.serial@,
    })
    &&& d.platform@ == "android"@
    &&& d.os_version@ == (match text::lookup(ps, "ro.build.version.release"@) {
        Some(v) => v,
        None => "Unknown"@,
    })
    &&& d.state@ == android_state(a.state@)
    &&& d.transport@ == android_transport(a.connection@)
    &&& text::opt_view(d.address) == (if text::contains(a.serial@, seq![':']) {
        Some(a.serial@)
    } else {
        None
    })
    &&& text::opt_view(d.model) == model
    &&& text::opt_view(d.architecture) == text::lookup(ps, "ro.product.cpu.abi"@)
    &&& d.rooted == (if online {
        rooted
    } else {
        None
    })
    &&& d.jailbroken is None
    &&& text::opt_view(d.product) == or_else(
        text::lookup(ps, "ro.product.name"@),
        text::opt_view(a.product),
    )
}

fn opt_copy(o: &Option<String>) -> (r: Option<String>)
    ensures
        text::opt_view(r) == text::opt_view(*o),
{
    match o {
        Some(s) => Some(text::copy_string(s)),
        None => None,
    }
}

fn prop_or(props: &[(String, String)], key: &str, fallback: &Option<String>) -> (r: Option<String>)
    ensures
        text::opt_view(r) == or_else(text::lookup(text::pair_views(props@), key@), text::opt_view(*fallback)),
{
    match text::lookup_exec(props, key) {
        Some(v) => Some(v),
        None => opt_copy(fallback),
    }
}

/// Summarises an adb device for the device list, with its `getprop`
/// properties and the result of the root probe.
pub fn enrich_android_device(device: AndroidDevice, properties: &[(String, String)], rooted: Option<
    bool,
>) -> (d: Device)
    ensures
        android_summary(d, device, text::pair_views(properties@), rooted),
{
    let online = text::eq_str_str(device.state.as_str(), "device");
    let empty: Vec<(String, String)> = Vec::new();
    let ps: &[(String, String)] = if online {
        properties
    } else {
        &empty
    };
    assert(text::pair_views(empty@) =~= Seq::<(Seq<char>, Seq<char>)>::empty());
    let model = match prop_or(ps, "ro.product.model", &device.model) {
        Some(m) => {
            let cs = text::chars_of(m.as_str());
            let space: Vec<char> = vec![' '];
            assert(space@ =~= seq![' ']);
            let replaced = text::replace_char_exec(&cs, '_', &space);
            Some(text::string_of(&replaced))
        },
        None => None,
    };
    let name = match &model {
        Some(m) => text::copy_string(m),
        None => text::copy_string(&device.serial),
    };
    let s = text::chars_of(device.state.as_str());
    let state = if text::eq_str(&s, "device") || text::eq_str(&s, "recovery") || text::eq_str(
        &s,
        "sideload",
    ) {
        "online"
    } else if text::eq_str(&s, "unauthorized") {
        "unauthorized"
    } else if text::eq_str(&s, "offline") {
        "offline"
    } else {
        "connecting"
    };
    let c = text::chars_of(device.connection.as_str());
    let transport = if text::eq_str(&c, "network") {
        "wifi"
    } else if text::eq_str(&c, "emulator") {
        "emulator"
    } else {
        "usb"
    };
    let serial_chars = text::chars_of(device.serial.as_str());
    let colon: Vec<char> = vec![':'];
    assert(colon@ =~= seq![':']);
    let address = if text::contains_exec(&serial_chars, &colon) {
        Some(text::copy_string(&device.serial))
    } else {
        None
    };
    let os_version = match text::lookup_exec(ps, "ro.build.version.release") {
        Some(v) => v,
        None => text::copy_str("Unknown"),
    };
    Device {
        id: text::copy_string(&device.serial),
        name,
        platform: text::copy_str("android"),
        os_version,
        state: text::copy_str(state),
        transport: text::copy_str(transport),
        address,
        model,
        architecture: text::lookup_exec(ps, "ro.product.cpu.abi"),
        rooted: if online {
            rooted
        } else {
            None
        },
        jailbroken: None,
        product: prop_or(ps, "ro.product.name", &device.product),
    }
}

/// `d` summarises the iOS device `i`.
pub open spec fn ios_summary(d: Device, i: IosDevice) -> bool {
    &&& d.id@ == i.udid@
    &&& d.name@ == (match text::opt_view(i.name) {
        Some(n) => n,
        None => "iOS Device"@,
    })
    &&& d.platform@ == "ios"@
    &&& d.os_version@ == (match text::opt_view(i.product_version) {
        Some(v) => v,
        None => "Unknown"@,
    })
    &&& d.state@ == "online"@
    &&& d.transport@ == (if i.connection@ == "network"@ {
        "wifi"@
    } else {
        "usbmux"@
    })
    &&& d.address is None
    &&& text::opt_view(d.model) == text::opt_view(i.product_type)
    &&& d.architecture is None
    &&& d.rooted is None
    &&& d.jailbroken is None
    &&& text::opt_view(d.product) == text::opt_view(i.product_type)
}

/// Summarises an iOS device for the device list.
pub fn ios_device_summary(device: &IosDevice) -> (d: Device)
    ensures
        ios_summary(d, *device),
{
    let name = match &device.name {
        Some(n) => text::copy_string(n),
        None => text::copy_str("iOS Device"),
    };
    let os_version = match &device.product_version {
        Some(v) => text::copy_string(v),
        None => text::copy_str("Unknown"),
    };
    let transport = if text::eq_str_str(device.connection.as_str(), "network") {
        "wifi"
    } else {
        "usbmux"
    };
    Device {
        id: text::copy_string(&device.udid),
        name,
        platform: text::copy_str("ios"),
        os_version,
        state: text::copy_str("online"),
        transport: text::copy_str(transport),
        address: None,
        model: opt_copy(&device.product_type),
        architecture: None,
        rooted: None,
        jailbroken: None,
        product: opt_copy(&device.product_type),
    }
}

/// Identifiers paired with whether the device was seen only over the network.
pub open spec fn keyed(v: Seq<(Vec<char>, bool)>) -> Seq<(Seq<char>, bool)> {
    v.map_values(|p: (Vec<char>, bool)| (p.0@, p.1))
}

pub open spec fn strictly_sorted(r: Seq<(Seq<char>, bool)>) -> bool {
    forall|i: int, j: int| 0 <= i < j < r.len() ==> text::lex_lt(#[trigger] r[i].0, #[trigger] r[j].0)
}

pub open spec fn has_key(r: Seq<(Seq<char>, bool)>, k: Seq<char>) -> bool {
    exists|i: int| 0 <= i < r.len() && (#[trigger] r[i]).0 == k
}

/// Inserts or updates `k` in an identifier-ordered list, as a map keyed by
/// identifier would.
fn insert_sorted(v: &mut Vec<(Vec<char>, bool)>, k: &[char], flag: bool)
    requires
        strictly_sorted(keyed(old(v)@)),
    ensures
        strictly_sorted(keyed(final(v)@)),
        has_key(keyed(final(v)@), k@),
        forall|i: int|
            0 <= i < final(v)@.len() ==> ((#[trigger] keyed(final(v)@)[i]) == (k@, flag) || (
            keyed(final(v)@)[i].0 != k@ && keyed(old(v)@).contains(keyed(final(v)@)[i]))),
        forall|j: int|
            0 <= j < old(v)@.len() && (#[trigger] keyed(old(v)@)[j]).0 != k@ ==> keyed(
                final(v)@,
            ).contains(keyed(old(v)@)[j]),
{
    let ghost old_k = keyed(v@);
    let mut p: usize = 0;
    while p < v.len() && text::lex_less(&v[p].0, k)
        invariant
            p <= v@.len(),
            old_k == keyed(v@),
            strictly_sorted(old_k),
            forall|i: int| 0 <= i < p ==> text::lex_lt(#[trigger] old_k[i].0, k@),
        decreases v@.len() - p,
    {
        p = p + 1;
    }
    proof {
        if p < v@.len() {
            assert(!text::lex_lt(old_k[p as int].0, k@));
            assert forall|i: int| p <= i < old_k.len() implies !text::lex_lt(#[trigger] old_k[i].0, k@) by {
                if i > p {
                    if text::lex_lt(old_k[i].0, k@) {
                        text::lemma_lex_transitive(old_k[p as int].0, old_k[i].0, k@);
                    }
                }
            }
        }
    }
    if p < v.len() && text::seq_eq(&v[p].0, k) {
        let key = text::copy_chars(k);
        let ghost before = v@;
        v.set(p, (key, flag));
        assert(keyed(v@) =~= old_k.update(p as int, (k@, flag)));
        assert forall|i: int, j: int| 0 <= i < j < keyed(v@).len() implies text::lex_lt(
            #[trigger] keyed(v@)[i].0,
            #[trigger] keyed(v@)[j].0,
        ) by {
            assert(keyed(v@)[i].0 == old_k[i].0);
            assert(keyed(v@)[j].0 == old_k[j].0);
        }
        assert(keyed(v@)[p as int] == (k@, flag));
        assert forall|i: int| 0 <= i < v@.len() implies ((#[trigger] keyed(v@)[i]) == (k@, flag) || (
        keyed(v@)[i].0 != k@ && old_k.contains(keyed(v@)[i]))) by {
            if i != p {
                assert(keyed(v@)[i] == old_k[i]);
                if i < p {
                    text::lemma_lex_irreflexive(k@);
                } else {
                    text::lemma_lex_irreflexive(k@);
                }
            }
        }
        assert forall|j: int| 0 <= j < old_k.len() && (#[trigger] old_k[j]).0 != k@ implies keyed(
            v@,
        ).contains(old_k[j]) by {
            assert(j != p);
            assert(keyed(v@)[j] == old_k[j]);
        }
    } else {
        proof {
            if p < v@.len() {
                text::lemma_lex_total(old_k[p as int].0, k@);
            }
        }
        let key = text::copy_chars(k);
        v.insert(p, (key, flag));
        assert(keyed(v@) =~= old_k.insert(p as int, (k@, flag)));
        assert(keyed(v@)[p as int] == (k@, flag));
        assert forall|i: int, j: int| 0 <= i < j < keyed(v@).len() implies text::lex_lt(
            #[trigger] keyed(v@)[i].0,
            #[trigger] keyed(v@)[j].0,
        ) by {
            if j == p {
                assert(keyed(v@)[i] == old_k[i]);
            } else if i == p {
                assert(keyed(v@)[j] == old_k[j - 1]);
                if j - 1 > p {
                    text::lemma_lex_total(old_k[j - 1].0, k@);
                    text::lemma_lex_transitive(k@, old_k[p as int].0, old_k[j - 1].0);
                }
            } else if j < p {
                assert(keyed(v@)[i] == old_k[i]);
                assert(keyed(v@)[j] == old_k[j]);
            } else if i < p {
                assert(keyed(v@)[i] == old_k[i]);
                assert(keyed(v@)[j] == old_k[j - 1]);
                if i < j - 1 {
                } else {
                    assert(false);
                }
            } else {
                assert(keyed(v@)[i] == old_k[i - 1]);
                assert(keyed(v@)[j] == old_k[j - 1]);
            }
        }
        assert forall|i: int| 0 <= i < v@.len() implies ((#[trigger] keyed(v@)[i]) == (k@, flag) || (
        keyed(v@)[i].0 != k@ && old_k.contains(keyed(v@)[i]))) by {
            if i < p {
                assert(keyed(v@)[i] == old_k[i]);
                text::lemma_lex_irreflexive(k@);
            } else if i > p {
                assert(keyed(v@)[i] == old_k[i - 1]);
                if old_k[i - 1].0 == k@ {
                    text::lemma_lex_total(old_k[p as int].0, k@);
                    if i - 1 > p {
                        text::lemma_lex_transitive(k@, old_k[p as int].0, old_k[i - 1].0);
                        text::lemma_lex_irreflexive(k@);
                    }
                }
            }
        }
        assert forall|j: int| 0 <= j < old_k.len() && (#[trigger] old_k[j]).0 != k@ implies keyed(
            v@,
        ).contains(old_k[j]) by {
            if j < p {
                assert(keyed(v@)[j] == old_k[j]);
            } else {
                assert(keyed(v@)[j + 1] == old_k[j]);
            }
        }
    }
}

/// `r` lists every identifier seen over USB or over the network exactly
/// once, in identifier order; `true` marks a device seen only over the
/// network (a device visible through both transports is listed as USB).
pub open spec fn merged_connections(
    r: Seq<(Seq<char>, bool)>,
    usb: Seq<Seq<char>>,
    net: Seq<Seq<char>>,
) -> bool {
    &&& strictly_sorted(r)
    &&& forall|i: int|
        0 <= i < r.len() ==> (usb.contains((#[trigger] r[i]).0) || net.contains(r[i].0)) && (r[i].1
            <==> !usb.contains(r[i].0))
    &&& forall|u: Seq<char>| usb.contains(u) || net.contains(u) ==> has_key(r, u)
}

pub open spec fn flag_views(v: Seq<(String, bool)>) -> Seq<(Seq<char>, bool)> {
    v.map_values(|p: (String, bool)| (p.0@, p.1))
}

/// Combines the identifiers listed by `idevice_id -l` (USB) and
/// `idevice_id -n` (network) into one entry per device.
pub fn merge_ios_connections(usb: &[String], network: &[String]) -> (r: Vec<(String, bool)>)
    ensures
        merged_connections(flag_views(r@), text::string_views(usb@), text::string_views(network@)),
{
    let ghost u = text::string_views(usb@);
    let ghost n = text::string_views(network@);
    let mut v: Vec<(Vec<char>, bool)> = Vec::new();
    let mut m: usize = 0;
    while m < network.len()
        invariant
            n == text::string_views(network@),
            m <= network@.len(),
            strictly_sorted(keyed(v@)),
            forall|i: int|
                0 <= i < v@.len() ==> (#[trigger] keyed(v@)[i]).1 && n.take(m as int).contains(
                    keyed(v@)[i].0,
                ),
            forall|x: Seq<char>| n.take(m as int).contains(x) ==> has_key(keyed(v@), x),
        decreases network@.len() - m,
    {
        let k = text::chars_of(network[m].as_str());
        let ghost old_k = keyed(v@);
        insert_sorted(&mut v, &k, true);
        let ghost nk = keyed(v@);
        assert(n.take(m + 1) =~= n.take(m as int).push(k@));
        assert forall|i: int| 0 <= i < v@.len() implies (#[trigger] keyed(v@)[i]).1 && n.take(
            m + 1,
        ).contains(keyed(v@)[i].0) by {
            if nk[i] != (k@, true) {
                let j = choose|j: int| 0 <= j < old_k.len() && #[trigger] old_k[j] == nk[i];
                assert(old_k[j].1);
                assert(n.take(m as int).contains(old_k[j].0));
            }
            assert(n.take(m + 1)[m as int] == k@);
        }
        assert forall|x: Seq<char>| n.take(m + 1).contains(x) implies has_key(keyed(v@), x) by {
            if x != k@ {
                let t = choose|t: int| 0 <= t < n.take(m + 1).len() && #[trigger] n.take(m + 1)[t] == x;
                assert(n.take(m as int)[t] == x);
                assert(has_key(old_k, x));
                let j = choose|j: int| 0 <= j < old_k.len() && (#[trigger] old_k[j]).0 == x;
                assert(nk.contains(old_k[j]));
                let i = choose|i: int| 0 <= i < nk.len() && #[trigger] nk[i] == old_k[j];
                assert(nk[i].0 == x);
            }
        }
        m = m + 1;
    }
    assert(n.take(network@.len() as int) =~= n);
    let mut m: usize = 0;
    while m < usb.len()
        invariant
            n == text::string_views(network@),
            u == text::string_views(usb@),
            m <= usb@.len(),
            strictly_sorted(keyed(v@)),
            forall|i: int|
                0 <= i < v@.len() ==> ((!(#[trigger] keyed(v@)[i]).1 && u.take(m as int).contains(
                    keyed(v@)[i].0,
                )) || (keyed(v@)[i].1 && n.contains(keyed(v@)[i].0) && !u.take(m as int).contains(
                    keyed(v@)[i].0,
                ))),
            forall|x: Seq<char>| u.take(m as int).contains(x) ==> has_key(keyed(v@), x),
            forall|x: Seq<char>| n.contains(x) ==> has_key(keyed(v@), x),
        decreases usb@.len() - m,
    {
        let k = text::chars_of(usb[m].as_str());
        let ghost old_k = keyed(v@);
        insert_sorted(&mut v, &k, false);
        let ghost nk = keyed(v@);
        assert(u.take(m + 1) =~= u.take(m as int).push(k@));
        assert forall|i: int| 0 <= i < v@.len() implies ((!(#[trigger] keyed(v@)[i]).1 && u.take(
            m + 1,
        ).contains(keyed(v@)[i].0)) || (keyed(v@)[i].1 && n.contains(keyed(v@)[i].0) && !u.take(
            m + 1,
        ).contains(keyed(v@)[i].0))) by {
            assert(u.take(m + 1)[m as int] == k@);
            if nk[i] != (k@, false) {
                let j = choose|j: int| 0 <= j < old_k.len() && #[trigger] old_k[j] == nk[i];
                assert(old_k[j].0 != k@);
                if u.take(m + 1).contains(nk[i].0) {
                    let t = choose|t: int|
                        0 <= t < u.take(m + 1).len() && #[trigger] u.take(m + 1)[t] == nk[i].0;
                    assert(u.take(m as int)[t] == nk[i].0);
                }
            }
        }
        assert forall|x: Seq<char>| u.take(m + 1).contains(x) implies has_key(keyed(v@), x) by {
            assert(u.take(m + 1)[m as int] == k@);
            if x != k@ {
                let t = choose|t: int| 0 <= t < u.take(m + 1).len() && #[trigger] u.take(m + 1)[t] == x;
                assert(u.take(m as int)[t] == x);
                assert(u.take(m as int).contains(x));
                assert(has_key(old_k, x));
                let j = choose|j: int| 0 <= j < old_k.len() && (#[trigger] old_k[j]).0 == x;
                assert(nk.contains(old_k[j]));
                let i = choose|i: int| 0 <= i < nk.len() && #[trigger] nk[i] == old_k[j];
                assert(nk[i].0 == x);
            }
        }
        assert forall|x: Seq<char>| n.contains(x) implies has_key(keyed(v@), x) by {
            if x != k@ {
                assert(has_key(old_k, x));
                let j = choose|j: int| 0 <= j < old_k.len() && (#[trigger] old_k[j]).0 == x;
                assert(nk.contains(old_k[j]));
                let i = choose|i: int| 0 <= i < nk.len() && #[trigger] nk[i] == old_k[j];
                assert(nk[i].0 == x);
            }
        }
        m = m + 1;
    }
    assert(u.take(usb@.len() as int) =~= u);
    let mut r: Vec<(String, bool)> = Vec::new();
    let mut i: usize = 0;
    while i < v.len()
        invariant
            i <= v@.len(),
            flag_views(r@) == keyed(v@).take(i as int),
        decreases v@.len() - i,
    {
        let s = text::string_of(&v[i].0);
        let ghost before = r@;
        r.push((s, v[i].1));
        assert(flag_views(r@) =~= flag_views(before).push((v@[i as int].0@, v@[i as int].1)));
        assert(keyed(v@).take(i + 1) =~= keyed(v@).take(i as int).push(keyed(v@)[i as int]));
        assert(flag_views(r@) =~= keyed(v@).take(i + 1));
        i = i + 1;
    }
    assert(keyed(v@).take(v@.len() as int) =~= keyed(v@));
    r
}

/// A pairing code is exactly six ASCII digits.
pub open spec fn valid_pairing_code(code: Seq<char>) -> bool {
    text::utf8_len(code) == 6 && text::all_digits(code)
}

/// Checks a wireless-debugging pairing code before it is handed to adb.
pub fn validate_pairing_code(code: &str) -> (r: Result<(), ApiError>)
    ensures
        valid_pairing_code(code@) ==> r is Ok,
        !valid_pairing_code(code@) ==> (r matches Err(e) && is_error(
            e,
            "invalid_pairing_code"@,
            "ADB pairing code must contain exactly six digits"@,
        )),
{
    let cs = text::chars_of(code);
    let n = text::utf8_len_capped(&cs, 7);
    let mut digits = true;
    let mut i: usize = 0;
    while i < cs.len()
        invariant
            i <= cs@.len(),
            digits == (forall|j: int| 0 <= j < i ==> text::is_digit(#[trigger] cs@[j])),
        decreases cs@.len() - i,
    {
        if !text::is_digit_exec(cs[i]) {
            digits = false;
        }
        i = i + 1;
    }
    if n != 6 || !digits {
        return Err(
            ApiError::new("invalid_pairing_code", "ADB pairing code must contain exactly six digits"),
        );
    }
    Ok(())
}

/// adb lists the endpoint as a usable device.
pub open spec fn endpoint_connected(devices: Seq<AndroidDevice>, address: Seq<char>) -> bool {
    exists|i: int|
        0 <= i < devices.len() && (#[trigger] devices[i]).serial@ == address && (
        devices[i].state@ == "device"@ || devices[i].state@ == "recovery"@ || devices[i].state@
            == "sideload"@)
}

/// The message of a failed adb operation: adb's own output, or a fallback.
pub open spec fn output_or(stdout: Seq<char>, fallback: Seq<char>) -> Seq<char> {
    if stdout.len() == 0 {
        fallback
    } else {
        stdout
    }
}

/// Checks that `adb connect` produced a usable device for the endpoint.
pub fn check_connected(devices: &[AndroidDevice], address: &str, output: &ProcessOutput) -> (r:
    Result<(), ApiError>)
    ensures
        endpoint_connected(devices@, address@) ==> r is Ok,
        !endpoint_connected(devices@, address@) ==> (r matches Err(e) && is_process_error(
            e,
            "adb_connect_failed"@,
            output_or(
                output.stdout@,
                "The endpoint did not appear as a usable adb device after connecting"@,
            ),
            *output,
        )),
{
    let mut i: usize = 0;
    while i < devices.len()
        invariant
            i <= devices@.len(),
            forall|j: int|
                0 <= j < i ==> !((#[trigger] devices@[j]).serial@ == address@ && (devices@[j].state@
                    == "device"@ || devices@[j].state@ == "recovery"@ || devices@[j].state@
                    == "sideload"@)),
        decreases devices@.len() - i,
    {
        let d = &devices[i];
        let st = text::chars_of(d.state.as_str());
        if text::eq_str_str(d.serial.as_str(), address) && (text::eq_str(&st, "device")
            || text::eq_str(&st, "recovery") || text::eq_str(&st, "sideload")) {
            assert(devices@[i as int] == *d);
            return Ok(());
        }
        i = i + 1;
    }
    let message = if output.stdout.as_str().is_empty() {
        text::copy_str("The endpoint did not appear as a usable adb device after connecting")
    } else {
        text::copy_string(&output.stdout)
    };
    Err(
        ApiError::with_message("adb_connect_failed", message).with_details(
            ErrorDetails::Process(output.copied()),
        ),
    )
}

/// Checks that `adb pair` reported success.
pub fn check_paired(output: &ProcessOutput) -> (r: Result<(), ApiError>)
    ensures
        text::contains(text::lower(output.stdout@), "success"@) ==> r is Ok,
        !text::contains(text::lower(output.stdout@), "success"@) ==> (r matches Err(e)
            && is_process_error(
            e,
            "adb_pair_failed"@,
            output_or(output.stdout@, "adb did not confirm pairing"@),
            *output,
        )),
{
    let cs = text::chars_of(output.stdout.as_str());
    let lowered = text::lower_exec(&cs);
    if text::contains_str(&lowered, "success") {
        return Ok(());
    }
    let message = if output.stdout.as_str().is_empty() {
        text::copy_str("adb did not confirm pairing")
    } else {
        text::copy_string(&output.stdout)
    };
    Err(
        ApiError::with_message("adb_pair_failed", message).with_details(
            ErrorDetails::Process(output.copied()),
        ),
    )
}

/// The adb arguments that run one command in the device shell; the command
/// is a single argument and no host shell is involved.
pub fn device_shell_arguments(serial: &str, command: &str) -> (r: Vec<String>)
    ensures
        text::string_views(r@) == seq!["-s"@, serial@, "shell"@, command@],
{
    let mut args: Vec<String> = Vec::new();
    text::push_str(&mut args, "-s");
    text::push_str(&mut args, serial);
    text::push_str(&mut args, "shell");
    text::push_str(&mut args, command);
    assert(text::string_views(args@) =~= seq!["-s"@, serial@, "shell"@, command@]);
    args
}

/// The `ideviceinfo` arguments for one device over USB or the network.
pub fn device_info_arguments(udid: &str, network: bool) -> (r: Vec<String>)
    ensures
        text::string_views(r@) == seq!["-u"@, udid@] + if network {
            seq!["-n"@]
        } else {
            Seq::empty()
        },
{
    let mut args: Vec<String> = Vec::new();
    text::push_str(&mut args, "-u");
    text::push_str(&mut args, udid);
    if network {
        text::push_str(&mut args, "-n");
    }
    assert(text::string_views(args@) =~= seq!["-u"@, udid@] + if network {
        seq!["-n"@]
    } else {
        Seq::empty()
    });
    args
}

/// An iOS device entry from its identifier, connection and, when
/// `ideviceinfo` answered, its properties.
pub fn ios_device_entry(udid: &str, network: bool, properties: Option<&[(String, String)]>) -> (d:
    IosDevice)
    ensures
        d.udid@ == udid@,
        d.connection@ == (if network {
            "network"@
        } else {
            "usb"@
        }),
        match properties {
            Some(p) => {
                &&& text::opt_view(d.name) == text::lookup(text::pair_views(p@), "DeviceName"@)
                &&& text::opt_view(d.product_type) == text::lookup(
                    text::pair_views(p@),
                    "ProductType"@,
                )
                &&& text::opt_view(d.product_version) == text::lookup(
                    text::pair_views(p@),
                    "ProductVersion"@,
                )
                &&& text::opt_view(d.build_version) == text::lookup(
                    text::pair_views(p@),
                    "BuildVersion"@,
                )
            },
            None => d.name is None && d.product_type is None && d.product_version is None
                && d.build_version is None,
        },
{
    let connection = if network {
        text::copy_str("network")
    } else {
        text::copy_str("usb")
    };
    match properties {
        Some(p) => IosDevice {
            udid: text::copy_str(udid),
            name: text::lookup_exec(p, "DeviceName"),
            product_type: text::lookup_exec(p, "ProductType"),
            product_version: text::lookup_exec(p, "ProductVersion"),
            build_version: text::lookup_exec(p, "BuildVersion"),
            connection,
        },
        None => IosDevice {
            udid: text::copy_str(udid),
            name: None,
            product_type: None,
            product_version: None,
            build_version: None,
            connection,
        },
    }
}

/// The combined device list: Android devices then iOS devices; when both
/// discoveries failed, an error that carries both warnings.
pub fn combine_device_lists(
    android: Result<Vec<Device>, ApiError>,
    ios: Result<Vec<Device>, ApiError>,
) -> (r: Result<Vec<Device>, ApiError>)
    ensures
        match (android, ios) {
            (Err(a), Err(i)) => r matches Err(e) && is_warnings_error(
                e,
                "device_tools_unavailable"@,
                "Neither adb nor libimobiledevice tools are available"@,
                seq!["Android: "@ + a.message@, "iOS: "@ + i.message@],
            ),
            _ => r is Ok,
        },
        r is Ok ==> r->Ok_0@ == (match android {
            Ok(a) => a@,
            Err(_) => Seq::empty(),
        }) + (match ios {
            Ok(i) => i@,
            Err(_) => Seq::empty(),
        }),
{
    match (android, ios) {
        (Err(a), Err(i)) => {
            let mut warnings: Vec<String> = Vec::new();
            warnings.push(text::concat_strs("Android: ", a.message.as_str()));
            warnings.push(text::concat_strs("iOS: ", i.message.as_str()));
            assert(text::string_views(warnings@) =~= seq![
                "Android: "@ + a.message@,
                "iOS: "@ + i.message@,
            ]);
            Err(
                ApiError::new(
                    "device_tools_unavailable",
                    "Neither adb nor libimobiledevice tools are available",
                ).with_details(ErrorDetails::Warnings(warnings)),
            )
        },
        (Ok(mut a), Ok(mut i)) => {
            let ghost aa = a@;
            let ghost ii = i@;
            a.append(&mut i);
            assert(a@ =~= aa + ii);
            Ok(a)
        },
        (Ok(a), Err(_)) => {
            assert(a@ =~= a@ + Seq::<Device>::empty());
            Ok(a)
        },
        (Err(_), Ok(i)) => {
            assert(i@ =~= Seq::<Device>::empty() + i@);
            Ok(i)
        },
    }
}

} // verus!
