//! The go-ios command line: argument lists, which part of its output holds
//! the JSON answer, and how the device list is assembled from its entries.
use crate::models::{IosDevice, IosDeviceInfo};
use crate::text;
use vstd::prelude::*;

verus! {

pub open spec fn target_arguments(command: Seq<char>, udid: Seq<char>, extra: Seq<Seq<char>>) -> Seq<Seq<char>> {
    seq![command, "--udid="@ + udid] + extra
}

/// `ios COMMAND --udid=UDID EXTRA...`.
pub fn target_args(command: &str, udid: &str, extra_args: &[String]) -> (r: Vec<String>)
    ensures
        text::string_views(r@) == target_arguments(command@, udid@, text::string_views(extra_args@)),
{
    let mut args: Vec<String> = Vec::new();
    text::push_str(&mut args, command);
    text::push_string(&mut args, text::concat_strs("--udid=", udid));
    let ghost start = text::string_views(args@);
    let mut i: usize = 0;
    while i < extra_args.len()
        invariant
            i <= extra_args@.len(),
            text::string_views(args@) == start + text::string_views(extra_args@.take(i as int)),
        decreases extra_args@.len() - i,
    {
        text::push_str(&mut args, extra_args[i].as_str());
        assert(text::string_views(extra_args@.take(i + 1)) =~= text::string_views(extra_args@.take(i as int)).push(
            extra_args@[i as int]@,
        ));
        assert(start + text::string_views(extra_args@.take(i + 1)) =~= (start + text::string_views(
            extra_args@.take(i as int),
        )).push(extra_args@[i as int]@));
        i = i + 1;
    }
    assert(extra_args@.take(extra_args@.len() as int) =~= extra_args@);
    assert(text::string_views(args@) =~= target_arguments(command@, udid@, text::string_views(extra_args@)));
    args
}

/// Where go-ios's JSON answer may stand, in the order tried: the whole
/// trimmed output, then each of its lines, trimmed, from the last one up
/// (wrapped builds print log lines first).
pub open spec fn json_candidates_of(output: Seq<char>) -> Seq<Seq<char>> {
    let t = text::trim(output);
    let ls = text::lines(t);
    seq![t] + Seq::new(ls.len(), |i: int| text::trim(ls[ls.len() - 1 - i]))
}

pub fn json_candidates(output: &str) -> (r: Vec<String>)
    ensures
        text::string_views(r@) == json_candidates_of(output@),
{
    let cs = text::chars_of(output);
    let t = text::trim_exec(&cs);
    let ls = text::lines_exec(&t);
    let ghost lv = text::lines(t@);
    let mut out: Vec<String> = Vec::new();
    out.push(text::string_of(&t));
    let n = ls.len();
    assert(text::views(ls@) == lv);
    assert(text::views(ls@).len() == ls@.len());
    let mut i: usize = 0;
    while i < n
        invariant
            n == ls@.len(),
            n == lv.len(),
            i <= n,
            text::views(ls@) == lv,
            text::string_views(out@) == seq![t@] + Seq::new(i as nat, |k: int| text::trim(lv[lv.len() - 1 - k])),
        decreases n - i,
    {
        let line = &ls[n - 1 - i];
        assert(line@ == lv[n - 1 - i]);
        text::push_string(&mut out, text::string_of(&text::trim_exec(line)));
        assert(seq![t@] + Seq::new((i + 1) as nat, |k: int| text::trim(lv[lv.len() - 1 - k])) =~= (seq![t@]
            + Seq::new(i as nat, |k: int| text::trim(lv[lv.len() - 1 - k]))).push(text::trim(lv[n - 1 - i])));
        i = i + 1;
    }
    out
}

/// One entry of `ios list --details`.
#[derive(Debug, Clone)]
pub struct DeviceEntry {
    pub udid: String,
    pub product_name: Option<String>,
    pub product_type: Option<String>,
    pub product_version: Option<String>,
    pub connection_type: Option<String>,
}

/// `network` when go-ios says so (in any ASCII case), `usb` otherwise.
pub open spec fn label_of(c: Option<Seq<char>>) -> Seq<char> {
    match c {
        Some(s) => if text::lower(s) == "network"@ {
            "network"@
        } else {
            "usb"@
        },
        None => "usb"@,
    }
}

pub fn connection_label(value: Option<&str>) -> (r: &'static str)
    ensures
        r@ == label_of(
            match value {
                Some(v) => Some(v@),
                None => None,
            },
        ),
{
    match value {
        Some(v) => {
            let l = text::lower_exec(&text::chars_of(v));
            if text::eq_str(&l, "network") {
                "network"
            } else {
                "usb"
            }
        },
        None => "usb",
    }
}

/// A value that is not blank, kept as it was.
pub open spec fn nonblank(v: Option<String>) -> Option<Seq<char>> {
    match v {
        Some(s) => if text::trim(s@).len() > 0 {
            Some(s@)
        } else {
            None
        },
        None => None,
    }
}

fn nonempty(value: &Option<String>) -> (r: Option<String>)
    ensures
        text::opt_view(r) == nonblank(*value),
{
    match value {
        Some(s) => {
            let t = text::trim_exec(&text::chars_of(s.as_str()));
            if t.len() > 0 {
                Some(text::copy_string(s))
            } else {
                None
            }
        },
        None => None,
    }
}

pub open spec fn valid_entry(e: DeviceEntry) -> bool {
    text::trim(e.udid@).len() > 0
}

/// USB entries are preferred over network ones for the same device.
pub open spec fn entry_rank(e: DeviceEntry) -> nat {
    if label_of(text::opt_view(e.connection_type)) == "usb"@ {
        0
    } else {
        1
    }
}

/// The entry kept for a device: the first USB entry, or else the first
/// entry, among the entries with that identifier.
pub open spec fn chosen(s: Seq<DeviceEntry>, udid: Seq<char>) -> Option<DeviceEntry>
    decreases s.len(),
{
    if s.len() == 0 {
        None
    } else {
        let c = chosen(s.drop_last(), udid);
        let x = s.last();
        if valid_entry(x) && x.udid@ == udid {
            match c {
                None => Some(x),
                Some(y) => if entry_rank(x) < entry_rank(y) {
                    Some(x)
                } else {
                    c
                },
            }
        } else {
            c
        }
    }
}

/// The device reported for an entry.
pub open spec fn describes(d: IosDevice, e: DeviceEntry) -> bool {
    &&& d.udid@ == e.udid@
    &&& text::opt_view(d.name) == nonblank(e.product_name)
    &&& text::opt_view(d.product_type) == nonblank(e.product_type)
    &&& text::opt_view(d.product_version) == nonblank(e.product_version)
    &&& d.build_version is None
    &&& d.connection@ == label_of(text::opt_view(e.connection_type))
}

fn device_of(e: &DeviceEntry) -> (d: IosDevice)
    ensures
        describes(d, *e),
{
    let label = match &e.connection_type {
        Some(c) => connection_label(Some(c.as_str())),
        None => connection_label(None),
    };
    IosDevice {
        udid: text::copy_string(&e.udid),
        name: nonempty(&e.product_name),
        product_type: nonempty(&e.product_type),
        product_version: nonempty(&e.product_version),
        build_version: None,
        connection: text::copy_str(label),
    }
}

pub open spec fn udids_increasing(v: Seq<IosDevice>) -> bool {
    forall|i: int, j: int| 0 <= i < j < v.len() ==> text::lex_lt(#[trigger] v[i].udid@, #[trigger] v[j].udid@)
}

pub open spec fn has_udid(v: Seq<IosDevice>, u: Seq<char>) -> bool {
    exists|k: int| 0 <= k < v.len() && (#[trigger] v[k]).udid@ == u
}

proof fn lemma_chosen_other(t: Seq<DeviceEntry>, x: DeviceEntry, u: Seq<char>)
    requires
        !(valid_entry(x) && x.udid@ == u),
    ensures
        chosen(t.push(x), u) == chosen(t, u),
{
    assert(t.push(x).drop_last() =~= t);
}

/// The devices of a detailed list: entries with a blank identifier are
/// dropped, one device is kept per identifier (USB preferred), in
/// increasing order of identifier.
#[verifier::rlimit(40)]
pub fn device_list(entries: &[DeviceEntry]) -> (r: Vec<IosDevice>)
    ensures
        udids_increasing(r@),
        forall|k: int| 0 <= k < r@.len() ==> (chosen(entries@, (#[trigger] r@[k]).udid@) matches Some(e) && describes(r@[k], e)),
        forall|u: Seq<char>| (#[trigger] chosen(entries@, u)) is Some ==> has_udid(r@, u),
{
    let mut out: Vec<IosDevice> = Vec::new();
    let mut i: usize = 0;
    while i < entries.len()
        invariant
            i <= entries@.len(),
            udids_increasing(out@),
            forall|k: int| 0 <= k < out@.len() ==> (chosen(entries@.take(i as int), (#[trigger] out@[k]).udid@) matches Some(e)
                && describes(out@[k], e)),
            forall|u: Seq<char>| (#[trigger] chosen(entries@.take(i as int), u)) is Some ==> has_udid(out@, u),
        decreases entries@.len() - i,
    {
        let x = &entries[i];
        let ghost t = entries@.take(i as int);
        let ghost t1 = entries@.take(i + 1);
        assert(t1 =~= t.push(*x));
        assert(t1.drop_last() =~= t);
        let id = text::chars_of(x.udid.as_str());
        let trimmed = text::trim_exec(&id);
        if trimmed.len() == 0 {
            proof {
                assert forall|k: int| 0 <= k < out@.len() implies (chosen(t1, (#[trigger] out@[k]).udid@) matches Some(e)
                    && describes(out@[k], e)) by {
                    lemma_chosen_other(t, *x, out@[k].udid@);
                }
                assert forall|u: Seq<char>| (#[trigger] chosen(t1, u)) is Some implies has_udid(out@, u) by {
                    lemma_chosen_other(t, *x, u);
                }
            }
        } else {
            let mut p: usize = 0;
            while p < out.len() && text::lex_less(&text::chars_of(out[p].udid.as_str()), &id)
                invariant
                    p <= out@.len(),
                    id@ == x.udid@,
                    forall|k: int| 0 <= k < p ==> text::lex_lt((#[trigger] out@[k]).udid@, x.udid@),
                decreases out@.len() - p,
            {
                p = p + 1;
            }
            let ghost o = out@;
            let same = p < out.len() && text::eq_str(&id, out[p].udid.as_str());
            proof {
                if p < o.len() && !same {
                    text::lemma_lex_total(o[p as int].udid@, x.udid@);
                }
                if !same {
                    assert forall|k: int| 0 <= k < o.len() implies (#[trigger] o[k]).udid@ != x.udid@ by {
                        if k >= p && p < o.len() {
                            if k > p {
                                text::lemma_lex_transitive(x.udid@, o[p as int].udid@, o[k].udid@);
                            }
                            text::lemma_lex_irreflexive(x.udid@);
                        } else if k < p {
                            text::lemma_lex_irreflexive(x.udid@);
                        }
                    }
                    if chosen(t, x.udid@) is Some {
                        let w = choose|w: int| 0 <= w < o.len() && (#[trigger] o[w]).udid@ == x.udid@;
                        assert(false);
                    }
                }
            }
            if same {
                let existing_usb = text::eq_str_str(out[p].connection.as_str(), "usb");
                let d = device_of(x);
                let new_usb = text::eq_str_str(d.connection.as_str(), "usb");
                proof {
                    assert(o[p as int].udid@ == x.udid@);
                    let e = chosen(t, x.udid@)->0;
                    assert(entry_rank(e) == (if existing_usb { 0nat } else { 1nat }));
                    assert(entry_rank(*x) == (if new_usb { 0nat } else { 1nat }));
                }
                if new_usb && !existing_usb {
                    out.set(p, d);
                }
                proof {
                    assert forall|k: int| 0 <= k < out@.len() implies (chosen(t1, (#[trigger] out@[k]).udid@) matches Some(e)
                        && describes(out@[k], e)) by {
                        if k != p {
                            assert(out@[k] == o[k]);
                            assert(o[k].udid@ != x.udid@) by {
                                if k < p {
                                    text::lemma_lex_irreflexive(x.udid@);
                                } else {
                                    text::lemma_lex_irreflexive(x.udid@);
                                }
                            }
                            lemma_chosen_other(t, *x, o[k].udid@);
                        }
                    }
                    assert forall|u: Seq<char>| (#[trigger] chosen(t1, u)) is Some implies has_udid(out@, u) by {
                        if u != x.udid@ {
                            lemma_chosen_other(t, *x, u);
                            let w = choose|w: int| 0 <= w < o.len() && (#[trigger] o[w]).udid@ == u;
                            assert(out@[w].udid@ == u);
                        } else {
                            assert(out@[p as int].udid@ == u);
                        }
                    }
                }
            } else {
                let d = device_of(x);
                out.insert(p, d);
                proof {
                    assert(out@ == o.insert(p as int, d));
                    assert forall|a: int, b: int| 0 <= a < b < out@.len() implies text::lex_lt(
                        #[trigger] out@[a].udid@,
                        #[trigger] out@[b].udid@,
                    ) by {
                        if b == p {
                            assert(out@[a] == o[a]);
                        } else if a == p {
                            assert(out@[b] == o[b - 1]);
                            if b - 1 > p {
                                text::lemma_lex_transitive(x.udid@, o[p as int].udid@, o[b - 1].udid@);
                            }
                        } else if b < p {
                            assert(out@[a] == o[a] && out@[b] == o[b]);
                        } else if a < p {
                            assert(out@[a] == o[a] && out@[b] == o[b - 1]);
                            if a < p && p < b - 1 + 1 {
                                if b - 1 >= p && p < o.len() {
                                    if b - 1 > p {
                                        text::lemma_lex_transitive(o[a].udid@, x.udid@, o[p as int].udid@);
                                        text::lemma_lex_transitive(o[a].udid@, o[p as int].udid@, o[b - 1].udid@);
                                    } else {
                                        text::lemma_lex_transitive(o[a].udid@, x.udid@, o[p as int].udid@);
                                    }
                                }
                            }
                        } else {
                            assert(out@[a] == o[a - 1] && out@[b] == o[b - 1]);
                        }
                    }
                    assert forall|k: int| 0 <= k < out@.len() implies (chosen(t1, (#[trigger] out@[k]).udid@) matches Some(e)
                        && describes(out@[k], e)) by {
                        if k != p {
                            let ok = if k < p { k } else { k - 1 };
                            assert(out@[k] == o[ok]);
                            lemma_chosen_other(t, *x, o[ok].udid@);
                        }
                    }
                    assert forall|u: Seq<char>| (#[trigger] chosen(t1, u)) is Some implies has_udid(out@, u) by {
                        if u != x.udid@ {
                            lemma_chosen_other(t, *x, u);
                            let w = choose|w: int| 0 <= w < o.len() && (#[trigger] o[w]).udid@ == u;
                            let w2 = if w < p { w } else { w + 1 };
                            assert(out@[w2] == o[w]);
                        } else {
                            assert(out@[p as int].udid@ == u);
                        }
                    }
                }
            }
        }
        i = i + 1;
    }
    assert(entries@.take(entries@.len() as int) =~= entries@);
    out
}

/// The identifiers of `ios list`: each trimmed, blank ones dropped, each
/// kept once, in increasing order.
pub fn raw_identifiers(list: &[String]) -> (r: Vec<String>)
    ensures
        text::sorted_set(text::string_views(r@)),
        forall|u: Seq<char>|
            text::string_views(r@).contains(u) <==> (u.len() > 0 && exists|k: int|
                0 <= k < list@.len() && text::trim((#[trigger] list@[k])@) == u),
{
    let mut out: Vec<String> = Vec::new();
    let mut i: usize = 0;
    while i < list.len()
        invariant
            i <= list@.len(),
            text::sorted_set(text::string_views(out@)),
            forall|u: Seq<char>|
                text::string_views(out@).contains(u) <==> (u.len() > 0 && exists|k: int|
                    0 <= k < i && text::trim((#[trigger] list@[k])@) == u),
        decreases list@.len() - i,
    {
        let tv = text::trim_exec(&text::chars_of(list[i].as_str()));
        let t = text::string_of(&tv);
        let ghost before = text::string_views(out@);
        if tv.len() > 0 {
            text::insert_sorted_unique(&mut out, t.as_str());
        }
        proof {
            assert forall|u: Seq<char>| text::string_views(out@).contains(u) <==> (u.len() > 0 && exists|k: int|
                0 <= k < i + 1 && text::trim((#[trigger] list@[k])@) == u) by {
                if u.len() > 0 && exists|k: int| 0 <= k < i + 1 && text::trim((#[trigger] list@[k])@) == u {
                    let k = choose|k: int| 0 <= k < i + 1 && text::trim((#[trigger] list@[k])@) == u;
                    if k < i {
                        assert(before.contains(u));
                    }
                }
            }
        }
        i = i + 1;
    }
    out
}

/// A device reported only by the raw list and without readable details.
pub fn bare_device(udid: String) -> (d: IosDevice)
    ensures
        d.udid@ == udid@,
        d.name is None && d.product_type is None && d.product_version is None && d.build_version is None,
        d.connection@ == "usb"@,
{
    IosDevice {
        udid,
        name: None,
        product_type: None,
        product_version: None,
        build_version: None,
        connection: text::copy_str("usb"),
    }
}

/// A device described by the properties of `ios info`.
pub fn device_from_info(udid: &str, info: &IosDeviceInfo) -> (d: IosDevice)
    ensures
        d.udid@ == udid@,
        text::opt_view(d.name) == text::lookup(text::pair_views(info.properties@), "DeviceName"@),
        text::opt_view(d.product_type) == text::lookup(text::pair_views(info.properties@), "ProductType"@),
        text::opt_view(d.product_version) == text::lookup(text::pair_views(info.properties@), "ProductVersion"@),
        text::opt_view(d.build_version) == text::lookup(text::pair_views(info.properties@), "BuildVersion"@),
        d.connection@ == label_of(text::lookup(text::pair_views(info.properties@), "ConnectionType"@)),
{
    let connection = text::lookup_exec(&info.properties, "ConnectionType");
    let label = match &connection {
        Some(c) => connection_label(Some(c.as_str())),
        None => connection_label(None),
    };
    IosDevice {
        udid: text::copy_str(udid),
        name: text::lookup_exec(&info.properties, "DeviceName"),
        product_type: text::lookup_exec(&info.properties, "ProductType"),
        product_version: text::lookup_exec(&info.properties, "ProductVersion"),
        build_version: text::lookup_exec(&info.properties, "BuildVersion"),
        connection: text::copy_str(label),
    }
}

/// The error when no candidate held the expected JSON document.
pub fn unreadable_json(code: &str, reason: &str) -> (e: crate::error::ApiError)
    ensures
        crate::error::is_error(e, code@, "go-ios returned an unreadable JSON response: "@ + reason@),
{
    crate::error::ApiError::with_message(
        code,
        text::concat_strs("go-ios returned an unreadable JSON response: ", reason),
    )
}

} // verus!
