//! adb forward and reverse mappings: the adb invocations, how their
//! listings are read, and the registry of mappings this session created.
use crate::error::{is_error, is_warnings_error, ApiError, ErrorDetails};
use crate::models::{PortDirection, PortMapping, PortMappingRequest};
use crate::text;
use vstd::prelude::*;

verus! {

pub open spec fn direction_word(d: PortDirection) -> Seq<char> {
    match d {
        PortDirection::Forward => "forward"@,
        PortDirection::Reverse => "reverse"@,
    }
}

pub fn direction_name(d: PortDirection) -> (r: &'static str)
    ensures
        r@ == direction_word(d),
{
    match d {
        PortDirection::Forward => "forward",
        PortDirection::Reverse => "reverse",
    }
}

/// A listing row names a mapping of the selected device: `serial first
/// second ...`, or `first second` (the serial is then the selected one).
pub open spec fn row_endpoints(f: Seq<Seq<char>>, selected: Seq<char>) -> Option<(Seq<char>, Seq<char>)> {
    if f.len() >= 3 {
        if f[0] == selected {
            Some((f[1], f[2]))
        } else {
            None
        }
    } else if f.len() == 2 {
        Some((f[0], f[1]))
    } else {
        None
    }
}

/// `m` is the mapping of row endpoints `(first, second)`: adb lists a
/// forward as host then device endpoint, and a reverse as device then host
/// endpoint; either is removed by its first endpoint.
pub open spec fn mapping_from(m: PortMapping, d: PortDirection, selected: Seq<char>, first: Seq<char>, second: Seq<char>) -> bool {
    &&& m.serial@ == selected
    &&& m.direction == d
    &&& m.local@ == (match d {
        PortDirection::Forward => first,
        PortDirection::Reverse => second,
    })
    &&& m.remote@ == (match d {
        PortDirection::Forward => second,
        PortDirection::Reverse => first,
    })
    &&& m.remove_endpoint@ == first
}

/// The endpoint pairs of the selected device's rows, in order.
pub open spec fn mapping_rows(ls: Seq<Seq<char>>, selected: Seq<char>) -> Seq<(Seq<char>, Seq<char>)>
    decreases ls.len(),
{
    if ls.len() == 0 {
        Seq::empty()
    } else {
        mapping_rows(ls.drop_last(), selected) + match row_endpoints(
            text::words(ls.last()),
            selected,
        ) {
            Some(p) => seq![p],
            None => Seq::empty(),
        }
    }
}

/// Reads `adb forward --list` or `adb reverse --list`, keeping only the
/// selected device's mappings.
pub fn parse_mapping_lines(output: &str, direction: PortDirection, selected_serial: &str) -> (r: Vec<
    PortMapping,
>)
    ensures
        r@.len() == mapping_rows(text::lines(output@), selected_serial@).len(),
        forall|i: int|
            0 <= i < r@.len() ==> mapping_from(
                #[trigger] r@[i],
                direction,
                selected_serial@,
                mapping_rows(text::lines(output@), selected_serial@)[i].0,
                mapping_rows(text::lines(output@), selected_serial@)[i].1,
            ),
{
    let ls = text::lines_of(output);
    let ghost vs = text::views(ls@);
    let ghost sel = selected_serial@;
    let mut r: Vec<PortMapping> = Vec::new();
    let mut i: usize = 0;
    while i < ls.len()
        invariant
            vs == text::views(ls@),
            sel == selected_serial@,
            i <= ls@.len(),
            r@.len() == mapping_rows(vs.take(i as int), sel).len(),
            forall|j: int|
                0 <= j < r@.len() ==> mapping_from(
                    #[trigger] r@[j],
                    direction,
                    sel,
                    mapping_rows(vs.take(i as int), sel)[j].0,
                    mapping_rows(vs.take(i as int), sel)[j].1,
                ),
        decreases ls@.len() - i,
    {
        let ghost prev = mapping_rows(vs.take(i as int), sel);
        assert(vs.take(i + 1).drop_last() =~= vs.take(i as int));
        assert(vs.take(i + 1).last() == ls@[i as int]@);
        let f = text::words_exec(&ls[i]);
        let ghost fv = text::views(f@);
        let pair: Option<(usize, usize)> = if f.len() >= 3 {
            assert(fv[0] == f@[0]@);
            if text::eq_str(&f[0], selected_serial) {
                Some((1, 2))
            } else {
                None
            }
        } else if f.len() == 2 {
            Some((0, 1))
        } else {
            None
        };
        match pair {
            Some((a, b)) => {
                assert(fv[a as int] == f@[a as int]@ && fv[b as int] == f@[b as int]@);
                let first = &f[a];
                let second = &f[b];
                let (local, remote) = match direction {
                    PortDirection::Forward => (text::string_of(first), text::string_of(second)),
                    PortDirection::Reverse => (text::string_of(second), text::string_of(first)),
                };
                r.push(
                    PortMapping {
                        serial: text::copy_str(selected_serial),
                        direction,
                        local,
                        remote,
                        remove_endpoint: text::string_of(first),
                    },
                );
                assert(mapping_rows(vs.take(i + 1), sel) =~= prev + seq![(first@, second@)]);
            },
            None => {
                assert(mapping_rows(vs.take(i + 1), sel) =~= prev + Seq::<
                    (Seq<char>, Seq<char>),
                >::empty());
            },
        }
        i = i + 1;
    }
    assert(vs.take(ls@.len() as int) =~= vs);
    r
}

/// The arguments that list the device's mappings of one direction.
pub fn list_arguments(serial: &str, direction: PortDirection) -> (r: Vec<String>)
    ensures
        text::string_views(r@) == seq!["-s"@, serial@, direction_word(direction), "--list"@],
{
    let mut args: Vec<String> = Vec::new();
    text::push_str(&mut args, "-s");
    text::push_str(&mut args, serial);
    text::push_str(&mut args, direction_name(direction));
    text::push_str(&mut args, "--list");
    assert(text::string_views(args@) =~= seq![
        "-s"@,
        serial@,
        direction_word(direction),
        "--list"@,
    ]);
    args
}

/// The arguments that remove one mapping by its remove endpoint.
pub fn remove_arguments(serial: &str, direction: PortDirection, endpoint: &str) -> (r: Vec<String>)
    ensures
        text::string_views(r@) == seq![
            "-s"@,
            serial@,
            direction_word(direction),
            "--remove"@,
            endpoint@,
        ],
{
    let mut args: Vec<String> = Vec::new();
    text::push_str(&mut args, "-s");
    text::push_str(&mut args, serial);
    text::push_str(&mut args, direction_name(direction));
    text::push_str(&mut args, "--remove");
    text::push_str(&mut args, endpoint);
    assert(text::string_views(args@) =~= seq![
        "-s"@,
        serial@,
        direction_word(direction),
        "--remove"@,
        endpoint@,
    ]);
    args
}

/// The arguments that create a mapping. The request names the host side
/// `local` and the device side `remote`; adb reverse takes the device side
/// first.
pub open spec fn create_args(
    serial: Seq<char>,
    d: PortDirection,
    no_rebind: bool,
    local: Seq<char>,
    remote: Seq<char>,
) -> Seq<Seq<char>> {
    seq!["-s"@, serial, direction_word(d)] + (if no_rebind {
        seq!["--no-rebind"@]
    } else {
        Seq::empty()
    }) + match d {
        PortDirection::Forward => seq![local, remote],
        PortDirection::Reverse => seq![remote, local],
    }
}

pub fn create_arguments(request: &PortMappingRequest) -> (r: Vec<String>)
    ensures
        text::string_views(r@) == create_args(
            request.serial@,
            request.direction,
            request.no_rebind,
            request.local@,
            request.remote@,
        ),
{
    let mut args: Vec<String> = Vec::new();
    text::push_str(&mut args, "-s");
    text::push_str(&mut args, request.serial.as_str());
    text::push_str(&mut args, direction_name(request.direction));
    if request.no_rebind {
        text::push_str(&mut args, "--no-rebind");
    }
    match request.direction {
        PortDirection::Forward => {
            text::push_str(&mut args, request.local.as_str());
            text::push_str(&mut args, request.remote.as_str());
        },
        PortDirection::Reverse => {
            text::push_str(&mut args, request.remote.as_str());
            text::push_str(&mut args, request.local.as_str());
        },
    }
    assert(text::string_views(args@) =~= create_args(
        request.serial@,
        request.direction,
        request.no_rebind,
        request.local@,
        request.remote@,
    ));
    args
}

/// A mapping this session created, with the endpoint that removes it and
/// the peer endpoint it must still point at.
#[derive(Debug, Clone)]
pub struct ManagedPortMapping {
    pub serial: String,
    pub direction: PortDirection,
    pub remove_endpoint: String,
    pub expected_remote: String,
    pub owner: String,
}

/// The registry entry is the mapping of this device, direction and remove endpoint.
pub open spec fn keyed_by(m: ManagedPortMapping, serial: Seq<char>, d: PortDirection, endpoint: Seq<char>) -> bool {
    m.serial@ == serial && m.direction == d && m.remove_endpoint@ == endpoint
}

fn is_keyed_by(m: &ManagedPortMapping, serial: &str, d: PortDirection, endpoint: &str) -> (r: bool)
    ensures
        r == keyed_by(*m, serial@, d, endpoint@),
{
    text::eq_str_str(m.serial.as_str(), serial) && m.direction == d && text::eq_str_str(
        m.remove_endpoint.as_str(),
        endpoint,
    )
}

/// The registry without the entries of the given key, in order.
pub open spec fn without_key(
    v: Seq<ManagedPortMapping>,
    serial: Seq<char>,
    d: PortDirection,
    endpoint: Seq<char>,
) -> Seq<ManagedPortMapping>
    decreases v.len(),
{
    if v.len() == 0 {
        Seq::empty()
    } else {
        let rest = without_key(v.drop_last(), serial, d, endpoint);
        if keyed_by(v.last(), serial, d, endpoint) {
            rest
        } else {
            rest.push(v.last())
        }
    }
}

/// After a mapping is forgotten no entry of its key is left, and every entry
/// of another key is kept.
pub proof fn lemma_forget_removes_only_the_key(
    v: Seq<ManagedPortMapping>,
    serial: Seq<char>,
    d: PortDirection,
    endpoint: Seq<char>,
)
    ensures
        forall|i: int|
            0 <= i < without_key(v, serial, d, endpoint).len() ==> !keyed_by(
                #[trigger] without_key(v, serial, d, endpoint)[i],
                serial,
                d,
                endpoint,
            ),
        forall|m: ManagedPortMapping|
            v.contains(m) && !keyed_by(m, serial, d, endpoint) ==> without_key(v, serial, d, endpoint).contains(m),
    decreases v.len(),
{
    if v.len() > 0 {
        let p = v.drop_last();
        lemma_forget_removes_only_the_key(p, serial, d, endpoint);
        let w = without_key(p, serial, d, endpoint);
        assert forall|m: ManagedPortMapping| v.contains(m) && !keyed_by(m, serial, d, endpoint) implies without_key(
            v,
            serial,
            d,
            endpoint,
        ).contains(m) by {
            let k = choose|k: int| 0 <= k < v.len() && v[k] == m;
            if k < v.len() - 1 {
                assert(p[k] == m);
                assert(p.contains(m));
                assert(w.contains(m));
                let j = choose|j: int| 0 <= j < w.len() && w[j] == m;
                if !keyed_by(v.last(), serial, d, endpoint) {
                    assert(w.push(v.last())[j] == m);
                }
            } else {
                assert(w.push(v.last())[w.len() as int] == m);
            }
        }
    }
}

/// Removes every registry entry of the mapping, keeping the others in order.
pub fn forget_mapping(
    registry: &mut Vec<ManagedPortMapping>,
    serial: &str,
    direction: PortDirection,
    remove_endpoint: &str,
)
    ensures
        final(registry)@ == without_key(old(registry)@, serial@, direction, remove_endpoint@),
{
    let ghost start = registry@;
    let n0 = registry.len();
    let mut i: usize = 0;
    let mut j: usize = 0;
    assert(start.skip(0) =~= start);
    while i < registry.len()
        invariant
            start.len() == n0,
            j <= start.len(),
            i == without_key(start.take(j as int), serial@, direction, remove_endpoint@).len(),
            registry@ == without_key(start.take(j as int), serial@, direction, remove_endpoint@)
                + start.skip(j as int),
        decreases registry@.len() - i,
    {
        let ghost prev = without_key(start.take(j as int), serial@, direction, remove_endpoint@);
        assert(registry@.len() == i + start.len() - j);
        assert(j < start.len());
        assert(start.take(j + 1).drop_last() =~= start.take(j as int));
        assert(registry@[i as int] == start[j as int]);
        assert(start.take(j + 1).last() == start[j as int]);
        if is_keyed_by(&registry[i], serial, direction, remove_endpoint) {
            registry.remove(i);
            assert(registry@ =~= prev + start.skip(j + 1));
        } else {
            assert(registry@ =~= prev.push(start[j as int]) + start.skip(j + 1));
            i = i + 1;
        }
        j = j + 1;
    }
    assert(registry@.len() == i + start.len() - j);
    assert(start.take(j as int) =~= start);
    assert(registry@ =~= without_key(start, serial@, direction, remove_endpoint@));
}

/// Records a mapping this session created; an earlier entry for the same
/// device, direction and remove endpoint is replaced. Refused while the
/// application is exiting.
pub fn remember_mapping(
    registry: &mut Vec<ManagedPortMapping>,
    shutting_down: bool,
    serial: &str,
    direction: PortDirection,
    remove_endpoint: &str,
    expected_remote: &str,
    owner: &str,
) -> (r: Result<(), ApiError>)
    ensures
        shutting_down ==> (r matches Err(e) && is_error(
            e,
            "app_shutting_down"@,
            "Mobius is exiting and cannot retain a new port mapping"@,
        )) && final(registry)@ == old(registry)@,
        !shutting_down ==> r is Ok && final(registry)@.len() == without_key(
            old(registry)@,
            serial@,
            direction,
            remove_endpoint@,
        ).len() + 1 && final(registry)@.drop_last() == without_key(
            old(registry)@,
            serial@,
            direction,
            remove_endpoint@,
        ) && keyed_by(final(registry)@.last(), serial@, direction, remove_endpoint@)
            && final(registry)@.last().expected_remote@ == expected_remote@
            && final(registry)@.last().owner@ == owner@,
{
    if shutting_down {
        return Err(
            ApiError::new(
                "app_shutting_down",
                "Mobius is exiting and cannot retain a new port mapping",
            ),
        );
    }
    forget_mapping(registry, serial, direction, remove_endpoint);
    let ghost kept = registry@;
    registry.push(
        ManagedPortMapping {
            serial: text::copy_str(serial),
            direction,
            remove_endpoint: text::copy_str(remove_endpoint),
            expected_remote: text::copy_str(expected_remote),
            owner: text::copy_str(owner),
        },
    );
    assert(registry@.drop_last() =~= kept);
    Ok(())
}

/// The device still lists the mapping with the peer endpoint it was created
/// with.
pub open spec fn still_listed(listed: Seq<PortMapping>, m: ManagedPortMapping) -> bool {
    exists|i: int|
        0 <= i < listed.len() && (#[trigger] listed[i]).remove_endpoint@ == m.remove_endpoint@
            && match m.direction {
            PortDirection::Forward => listed[i].remote@ == m.expected_remote@,
            PortDirection::Reverse => listed[i].local@ == m.expected_remote@,
        }
}

pub fn mapping_still_listed(listed: &[PortMapping], m: &ManagedPortMapping) -> (r: bool)
    ensures
        r == still_listed(listed@, *m),
{
    let mut i: usize = 0;
    while i < listed.len()
        invariant
            i <= listed@.len(),
            forall|j: int|
                0 <= j < i ==> !((#[trigger] listed@[j]).remove_endpoint@ == m.remove_endpoint@
                    && match m.direction {
                    PortDirection::Forward => listed@[j].remote@ == m.expected_remote@,
                    PortDirection::Reverse => listed@[j].local@ == m.expected_remote@,
                }),
        decreases listed@.len() - i,
    {
        let c = &listed[i];
        let peer = match m.direction {
            PortDirection::Forward => text::eq_str_str(c.remote.as_str(), m.expected_remote.as_str()),
            PortDirection::Reverse => text::eq_str_str(c.local.as_str(), m.expected_remote.as_str()),
        };
        if text::eq_str_str(c.remove_endpoint.as_str(), m.remove_endpoint.as_str()) && peer {
            assert(listed@[i as int] == *c);
            return true;
        }
        i = i + 1;
    }
    false
}

/// The combined mapping list: forward mappings then reverse mappings; when
/// both listings failed, an error that carries both warnings.
pub fn combine_mapping_lists(
    forward: Result<Vec<PortMapping>, ApiError>,
    reverse: Result<Vec<PortMapping>, ApiError>,
) -> (r: Result<Vec<PortMapping>, ApiError>)
    ensures
        match (forward, reverse) {
            (Err(a), Err(b)) => r matches Err(e) && is_warnings_error(
                e,
                "mapping_list_failed"@,
                "Unable to list forward or reverse mappings"@,
                seq!["Forward mappings: "@ + a.message@, "Reverse mappings: "@ + b.message@],
            ),
            _ => r is Ok,
        },
        r is Ok ==> r->Ok_0@ == (match forward {
            Ok(a) => a@,
            Err(_) => Seq::empty(),
        }) + (match reverse {
            Ok(b) => b@,
            Err(_) => Seq::empty(),
        }),
{
    match (forward, reverse) {
        (Err(a), Err(b)) => {
            let mut warnings: Vec<String> = Vec::new();
            warnings.push(text::concat_strs("Forward mappings: ", a.message.as_str()));
            warnings.push(text::concat_strs("Reverse mappings: ", b.message.as_str()));
            assert(warnings@.map_values(|x: String| x@) =~= seq![
                "Forward mappings: "@ + a.message@,
                "Reverse mappings: "@ + b.message@,
            ]);
            Err(
                ApiError::new(
                    "mapping_list_failed",
                    "Unable to list forward or reverse mappings",
                ).with_details(ErrorDetails::Warnings(warnings)),
            )
        },
        (Ok(mut a), Ok(mut b)) => {
            let ghost aa = a@;
            let ghost bb = b@;
            a.append(&mut b);
            assert(a@ =~= aa + bb);
            Ok(a)
        },
        (Ok(a), Err(_)) => {
            assert(a@ =~= a@ + Seq::<PortMapping>::empty());
            Ok(a)
        },
        (Err(_), Ok(b)) => {
            assert(b@ =~= Seq::<PortMapping>::empty() + b@);
            Ok(b)
        },
    }
}

/// The endpoints recorded for a created mapping: the endpoint that removes
/// it and the peer it must keep pointing at.
pub fn managed_endpoints(request: &PortMappingRequest) -> (r: (String, String))
    ensures
        match request.direction {
            PortDirection::Forward => r.0@ == request.local@ && r.1@ == request.remote@,
            PortDirection::Reverse => r.0@ == request.remote@ && r.1@ == request.local@,
        },
{
    match request.direction {
        PortDirection::Forward => (text::copy_string(&request.local), text::copy_string(&request.remote)),
        PortDirection::Reverse => (text::copy_string(&request.remote), text::copy_string(&request.local)),
    }
}

} // verus!
