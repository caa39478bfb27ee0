//! IP addresses as plain values, and the dotted-quad IPv4 text form.
use crate::text;
use vstd::prelude::*;

verus! {

/// An IP address: four IPv4 octets, or eight IPv6 segments.
#[derive(Debug, Clone, Copy, PartialEq, Eq, Structural)]
pub enum IpAddress {
    V4(u8, u8, u8, u8),
    V6(u16, u16, u16, u16, u16, u16, u16, u16),
}

/// `Ipv4Addr::is_private`: 10.0.0.0/8, 172.16.0.0/12 and 192.168.0.0/16.
pub open spec fn v4_private(a: u8, b: u8) -> bool {
    a == 10 || (a == 172 && 16 <= b <= 31) || (a == 192 && b == 168)
}

/// `Ipv4Addr::is_loopback`: 127.0.0.0/8.
pub open spec fn v4_loopback(a: u8) -> bool {
    a == 127
}

/// `Ipv4Addr::is_link_local`: 169.254.0.0/16.
pub open spec fn v4_link_local(a: u8, b: u8) -> bool {
    a == 169 && b == 254
}

/// `Ipv6Addr::is_loopback`: `::1`.
pub open spec fn v6_loopback(a: IpAddress) -> bool {
    a == IpAddress::V6(0, 0, 0, 0, 0, 0, 0, 1)
}

pub fn is_private_v4(a: u8, b: u8) -> (r: bool)
    ensures
        r == v4_private(a, b),
{
    a == 10 || (a == 172 && 16 <= b && b <= 31) || (a == 192 && b == 168)
}

/// One dotted-quad field: one to three ASCII digits without a leading zero
/// (a lone `0` is allowed) and a value of at most 255.
pub open spec fn octet(s: Seq<char>) -> Option<u8> {
    if 1 <= s.len() <= 3 && text::all_digits(s) && !(s.len() > 1 && s[0] == '0')
        && text::digits_value(s) <= 255 {
        Some(text::digits_value(s) as u8)
    } else {
        None
    }
}

/// `Ipv4Addr::from_str`: four octets separated by dots, nothing else.
pub open spec fn ipv4_text(s: Seq<char>) -> Option<(u8, u8, u8, u8)> {
    let parts = text::split(s, '.');
    if parts.len() == 4 && octet(parts[0]) is Some && octet(parts[1]) is Some && octet(parts[2]) is Some
        && octet(parts[3]) is Some {
        Some((octet(parts[0])->0, octet(parts[1])->0, octet(parts[2])->0, octet(parts[3])->0))
    } else {
        None
    }
}

fn octet_exec(s: &[char]) -> (r: Option<u8>)
    ensures
        r == octet(s@),
{
    if s.len() < 1 || s.len() > 3 || (s.len() > 1 && s[0] == '0') {
        return None;
    }
    match text::parse_uint_exec(s, 255) {
        Some(v) => {
            if s[0] == '+' {
                return None;
            }
            assert(!(s@.len() > 0 && s@[0] == '+'));
            Some(v as u8)
        },
        None => {
            proof {
                if text::all_digits(s@) && text::digits_value(s@) <= 255 {
                    assert(s@[0] != '+') by {
                        assert(text::is_digit(s@[0]));
                    }
                }
            }
            None
        },
    }
}

/// Parses a dotted-quad IPv4 address.
pub fn parse_ipv4(s: &str) -> (r: Option<(u8, u8, u8, u8)>)
    ensures
        r == ipv4_text(s@),
{
    let cs = text::chars_of(s);
    let parts = text::split_exec(&cs, '.');
    if parts.len() != 4 {
        return None;
    }
    let a = octet_exec(&parts[0]);
    let b = octet_exec(&parts[1]);
    let c = octet_exec(&parts[2]);
    let d = octet_exec(&parts[3]);
    match (a, b, c, d) {
        (Some(a), Some(b), Some(c), Some(d)) => Some((a, b, c, d)),
        _ => None,
    }
}

/// The dotted-quad text of an IPv4 address.
pub open spec fn ipv4_display(a: u8, b: u8, c: u8, d: u8) -> Seq<char> {
    text::decimal(a as nat) + seq!['.'] + text::decimal(b as nat) + seq!['.'] + text::decimal(
        c as nat,
    ) + seq!['.'] + text::decimal(d as nat)
}

pub fn ipv4_string(a: u8, b: u8, c: u8, d: u8) -> (r: String)
    ensures
        r@ == ipv4_display(a, b, c, d),
{
    let mut v = text::decimal_exec(a as u64);
    v.push('.');
    text::append(&mut v, &text::decimal_exec(b as u64));
    v.push('.');
    text::append(&mut v, &text::decimal_exec(c as u64));
    v.push('.');
    text::append(&mut v, &text::decimal_exec(d as u64));
    assert(v@ =~= ipv4_display(a, b, c, d));
    text::string_of(&v)
}

} // verus!
