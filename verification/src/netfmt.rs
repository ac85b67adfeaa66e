//! Text rendering of network endpoints, used in wire JSON and in the names
//! of per-client media elements. IPv4 renders as the dotted quad; IPv6
//! renders as eight uncompressed hexadecimal groups in brackets.

use vstd::prelude::*;
use crate::numfmt::{dec_nat, push_dec_u64};
use crate::types::{Endpoint, IpAddress};

verus! {

/// The ASCII digit for a hexadecimal value below sixteen, lower case.
pub open spec fn hex_digit(d: nat) -> u8
    recommends
        d < 16,
{
    if d < 10 {
        (0x30 + d) as u8
    } else {
        (0x57 + d) as u8
    }
}

/// The hexadecimal rendering of a natural number, no leading zeros.
pub open spec fn hex_nat(n: nat) -> Seq<u8>
    decreases n,
{
    if n < 16 {
        seq![hex_digit(n)]
    } else {
        hex_nat(n / 16).push(hex_digit(n % 16))
    }
}

/// Appends the hexadecimal rendering of `n`.
pub fn push_hex_u16(out: &mut Vec<u8>, n: u16)
    ensures
        final(out)@ == old(out)@ + hex_nat(n as nat),
    decreases n,
{
    if n < 16 {
        let d: u16 = n;
        if d < 10 {
            out.push((0x30 + d) as u8);
        } else {
            out.push((0x57 + d) as u8);
        }
    } else {
        push_hex_u16(out, n / 16);
        let d: u16 = n % 16;
        if d < 10 {
            out.push((0x30 + d) as u8);
        } else {
            out.push((0x57 + d) as u8);
        }
        assert(out@ =~= old(out)@ + hex_nat(n as nat));
    }
}

/// The dotted-quad rendering of an IPv4 address held as its 32-bit value.
pub open spec fn ipv4_bytes(ip: u32) -> Seq<u8> {
    dec_nat((ip / 0x100_0000) as nat) + seq![0x2eu8] + dec_nat(((ip / 0x1_0000) % 0x100) as nat)
        + seq![0x2eu8] + dec_nat(((ip / 0x100) % 0x100) as nat) + seq![0x2eu8] + dec_nat(
        (ip % 0x100) as nat,
    )
}

/// One 16-bit group of an IPv6 address, counted from the most significant.
pub open spec fn ipv6_group(ip: u128, k: int) -> nat
    recommends
        0 <= k < 8,
{
    ((ip as nat) / ipv6_group_unit(k)) % 0x1_0000
}

/// The place value of an IPv6 group: sixteen to the sixteenth power at the
/// front, one at the back.
pub open spec fn ipv6_group_unit(k: int) -> nat {
    if k == 0 {
        0x1_0000_0000_0000_0000_0000_0000_0000
    } else if k == 1 {
        0x1_0000_0000_0000_0000_0000_0000
    } else if k == 2 {
        0x1_0000_0000_0000_0000_0000
    } else if k == 3 {
        0x1_0000_0000_0000_0000
    } else if k == 4 {
        0x1_0000_0000_0000
    } else if k == 5 {
        0x1_0000_0000
    } else if k == 6 {
        0x1_0000
    } else {
        1
    }
}

/// The rendering of an IPv6 address: eight hexadecimal groups, uncompressed,
/// separated by colons.
pub open spec fn ipv6_bytes(ip: u128) -> Seq<u8> {
    hex_nat(ipv6_group(ip, 0)) + seq![0x3au8] + hex_nat(ipv6_group(ip, 1)) + seq![0x3au8]
        + hex_nat(ipv6_group(ip, 2)) + seq![0x3au8] + hex_nat(ipv6_group(ip, 3)) + seq![0x3au8]
        + hex_nat(ipv6_group(ip, 4)) + seq![0x3au8] + hex_nat(ipv6_group(ip, 5)) + seq![0x3au8]
        + hex_nat(ipv6_group(ip, 6)) + seq![0x3au8] + hex_nat(ipv6_group(ip, 7))
}

/// The rendering of an endpoint: `a.b.c.d:port`, or `[groups]:port`.
pub open spec fn endpoint_bytes(e: Endpoint) -> Seq<u8> {
    match e.ip {
        IpAddress::V4(ip) => ipv4_bytes(ip) + seq![0x3au8] + dec_nat(e.port as nat),
        IpAddress::V6(ip) => seq![0x5bu8] + ipv6_bytes(ip) + seq![0x5du8, 0x3au8] + dec_nat(
            e.port as nat,
        ),
    }
}

/// Appends the dotted-quad rendering of an IPv4 address.
pub fn push_ipv4(out: &mut Vec<u8>, ip: u32)
    ensures
        final(out)@ == old(out)@ + ipv4_bytes(ip),
{
    push_dec_u64(out, (ip / 0x100_0000) as u64);
    out.push(0x2e);
    push_dec_u64(out, ((ip / 0x1_0000) % 0x100) as u64);
    out.push(0x2e);
    push_dec_u64(out, ((ip / 0x100) % 0x100) as u64);
    out.push(0x2e);
    push_dec_u64(out, (ip % 0x100) as u64);
    assert(out@ =~= old(out)@ + ipv4_bytes(ip));
}

fn ipv6_group_of(ip: u128, k: usize) -> (g: u16)
    requires
        k < 8,
    ensures
        g as nat == ipv6_group(ip, k as int),
{
    let unit: u128 = match k {
        0 => 0x1_0000_0000_0000_0000_0000_0000_0000,
        1 => 0x1_0000_0000_0000_0000_0000_0000,
        2 => 0x1_0000_0000_0000_0000_0000,
        3 => 0x1_0000_0000_0000_0000,
        4 => 0x1_0000_0000_0000,
        5 => 0x1_0000_0000,
        6 => 0x1_0000,
        _ => 1,
    };
    assert(unit == ipv6_group_unit(k as int));
    ((ip / unit) % 0x1_0000) as u16
}

/// Appends the uncompressed rendering of an IPv6 address.
pub fn push_ipv6(out: &mut Vec<u8>, ip: u128)
    ensures
        final(out)@ == old(out)@ + ipv6_bytes(ip),
{
    push_hex_u16(out, ipv6_group_of(ip, 0));
    out.push(0x3a);
    push_hex_u16(out, ipv6_group_of(ip, 1));
    out.push(0x3a);
    push_hex_u16(out, ipv6_group_of(ip, 2));
    out.push(0x3a);
    push_hex_u16(out, ipv6_group_of(ip, 3));
    out.push(0x3a);
    push_hex_u16(out, ipv6_group_of(ip, 4));
    out.push(0x3a);
    push_hex_u16(out, ipv6_group_of(ip, 5));
    out.push(0x3a);
    push_hex_u16(out, ipv6_group_of(ip, 6));
    out.push(0x3a);
    push_hex_u16(out, ipv6_group_of(ip, 7));
    assert(out@ =~= old(out)@ + ipv6_bytes(ip));
}

/// Appends the rendering of an endpoint.
pub fn push_endpoint(out: &mut Vec<u8>, e: &Endpoint)
    ensures
        final(out)@ == old(out)@ + endpoint_bytes(*e),
{
    match e.ip {
        IpAddress::V4(ip) => {
            push_ipv4(out, ip);
            out.push(0x3a);
            push_dec_u64(out, e.port as u64);
        },
        IpAddress::V6(ip) => {
            out.push(0x5b);
            push_ipv6(out, ip);
            out.push(0x5d);
            out.push(0x3a);
            push_dec_u64(out, e.port as u64);
        },
    }
    assert(out@ =~= old(out)@ + endpoint_bytes(*e));
}

/// The rendering of an endpoint as a fresh vector.
pub fn endpoint_string(e: &Endpoint) -> (r: Vec<u8>)
    ensures
        r@ == endpoint_bytes(*e),
{
    let mut out: Vec<u8> = Vec::new();
    push_endpoint(&mut out, e);
    assert(out@ =~= endpoint_bytes(*e));
    out
}

} // verus!
