//! Byte-level packet header parsing.
//!
//! The capture layer hands the library raw frames; these functions read
//! Ethernet, IPv4 and TCP headers out of them. Every field is specified
//! arithmetically from the bytes, and a header that does not fit its
//! buffer yields `None` instead of going out of bounds.

use vstd::prelude::*;

verus! {

/// Bytes `[from, to)` of a frame as an owned vector.
fn copy_range(data: &[u8], from: usize, to: usize) -> (r: Vec<u8>)
    requires
        from <= to <= data@.len(),
    ensures
        r@ == data@.subrange(from as int, to as int),
{
    let mut r: Vec<u8> = Vec::new();
    let mut i = from;
    while i < to
        invariant
            from <= i <= to <= data@.len(),
            r@ == data@.subrange(from as int, i as int),
        decreases to - i,
    {
        r.push(data[i]);
        proof {
            assert(data@.subrange(from as int, i + 1) =~= data@.subrange(from as int, i as int)
                .push(data@[i as int]));
        }
        i = i + 1;
    }
    r
}

/// A parsed Ethernet header: both addresses, the EtherType, and the
/// frame's payload.
#[derive(Debug, Clone)]
pub struct EthernetInfo {
    pub dst_mac: Vec<u8>,
    pub src_mac: Vec<u8>,
    pub ether_type: u16,
    pub payload: Vec<u8>,
}

/// A parsed IPv4 header: lengths, protocol, both addresses, and the
/// datagram's payload.
#[derive(Debug, Clone)]
pub struct Ipv4Info {
    pub header_len: usize,
    pub total_len: usize,
    pub protocol: u8,
    pub src_ip: u32,
    pub dst_ip: u32,
    pub payload: Vec<u8>,
}

/// A parsed TCP header: ports, sequence numbers, flags, window, and the
/// segment's payload.
#[derive(Debug, Clone)]
pub struct TcpInfo {
    pub src_port: u16,
    pub dst_port: u16,
    pub seq_num: u32,
    pub ack_num: u32,
    pub header_len: usize,
    pub flags: u8,
    pub window_size: u16,
    pub payload: Vec<u8>,
}

/// Big-endian 16-bit value of two bytes.
pub open spec fn be16(hi: u8, lo: u8) -> int {
    hi * 256 + lo
}

/// Big-endian 32-bit value of four bytes.
pub open spec fn be32(b0: u8, b1: u8, b2: u8, b3: u8) -> int {
    ((b0 * 256 + b1) * 256 + b2) * 256 + b3
}

fn read_be16(data: &[u8], at: usize) -> (r: u16)
    requires
        at + 2 <= data@.len(),
    ensures
        r == be16(data@[at as int], data@[at + 1]),
{
    (data[at] as u16) * 256 + (data[at + 1] as u16)
}

fn read_be32(data: &[u8], at: usize) -> (r: u32)
    requires
        at + 4 <= data@.len(),
    ensures
        r == be32(data@[at as int], data@[at + 1], data@[at + 2], data@[at + 3]),
{
    (((data[at] as u32) * 256 + (data[at + 1] as u32)) * 256 + (data[at + 2] as u32)) * 256 + (
    data[at + 3] as u32)
}

/// Stateless header readers over raw captured frames.
pub struct ZeroCopyPacketParser;

impl ZeroCopyPacketParser {
    /// Read an Ethernet header. `None` exactly when the frame is shorter
    /// than the 14-byte header.
    pub fn parse_ethernet(data: &[u8]) -> (r: Option<EthernetInfo>)
        ensures
            r is Some <==> data@.len() >= 14,
            match r {
                Some(e) => {
                    &&& e.dst_mac@ == data@.subrange(0, 6)
                    &&& e.src_mac@ == data@.subrange(6, 12)
                    &&& e.ether_type == be16(data@[12], data@[13])
                    &&& e.payload@ == data@.subrange(14, data@.len() as int)
                },
                None => true,
            },
    {
        if data.len() < 14 {
            return None;
        }
        Some(
            EthernetInfo {
                dst_mac: copy_range(data, 0, 6),
                src_mac: copy_range(data, 6, 12),
                ether_type: read_be16(data, 12),
                payload: copy_range(data, 14, data.len()),
            },
        )
    }

    /// Read an IPv4 header. `None` exactly when the buffer is shorter
    /// than 20 bytes, the version nibble is not 4, or the stated header
    /// length does not fit the buffer.
    pub fn parse_ipv4(data: &[u8]) -> (r: Option<Ipv4Info>)
        ensures
            r is Some <==> data@.len() >= 20 && data@[0] / 16 == 4 && (data@[0] % 16) * 4
                <= data@.len(),
            match r {
                Some(p) => {
                    &&& p.header_len == (data@[0] % 16) * 4
                    &&& p.total_len == be16(data@[2], data@[3])
                    &&& p.protocol == data@[9]
                    &&& p.src_ip == be32(data@[12], data@[13], data@[14], data@[15])
                    &&& p.dst_ip == be32(data@[16], data@[17], data@[18], data@[19])
                    &&& p.payload@ == data@.subrange(p.header_len as int, data@.len() as int)
                },
                None => true,
            },
    {
        if data.len() < 20 {
            return None;
        }
        let version = data[0] / 16;
        if version != 4 {
            return None;
        }
        let header_len = (data[0] % 16) as usize * 4;
        if header_len > data.len() {
            return None;
        }
        Some(
            Ipv4Info {
                header_len,
                total_len: read_be16(data, 2) as usize,
                protocol: data[9],
                src_ip: read_be32(data, 12),
                dst_ip: read_be32(data, 16),
                payload: copy_range(data, header_len, data.len()),
            },
        )
    }

    /// Read a TCP header. `None` exactly when the buffer is shorter than
    /// 20 bytes or the stated data offset does not fit the buffer.
    pub fn parse_tcp(data: &[u8]) -> (r: Option<TcpInfo>)
        ensures
            r is Some <==> data@.len() >= 20 && (data@[12] / 16) * 4 <= data@.len(),
            match r {
                Some(t) => {
                    &&& t.src_port == be16(data@[0], data@[1])
                    &&& t.dst_port == be16(data@[2], data@[3])
                    &&& t.seq_num == be32(data@[4], data@[5], data@[6], data@[7])
                    &&& t.ack_num == be32(data@[8], data@[9], data@[10], data@[11])
                    &&& t.header_len == (data@[12] / 16) * 4
                    &&& t.flags == data@[13]
                    &&& t.window_size == be16(data@[14], data@[15])
                    &&& t.payload@ == data@.subrange(t.header_len as int, data@.len() as int)
                },
                None => true,
            },
    {
        if data.len() < 20 {
            return None;
        }
        let header_len = (data[12] / 16) as usize * 4;
        if header_len > data.len() {
            return None;
        }
        Some(
            TcpInfo {
                src_port: read_be16(data, 0),
                dst_port: read_be16(data, 2),
                seq_num: read_be32(data, 4),
                ack_num: read_be32(data, 8),
                header_len,
                flags: data[13],
                window_size: read_be16(data, 14),
                payload: copy_range(data, header_len, data.len()),
            },
        )
    }
}

/// Read the addresses, protocol and payload out of a raw IPv4 datagram.
/// `None` exactly when the buffer is shorter than 20 bytes or the
/// version nibble is not 4; a stated header length beyond the buffer
/// yields an empty payload.
pub fn parse_ipv4_packet(data: &[u8]) -> (r: Option<(u32, u32, u8, Vec<u8>)>)
    ensures
        r is Some <==> data@.len() >= 20 && data@[0] / 16 == 4,
        match r {
            Some(p) => {
                &&& p.0 == be32(data@[12], data@[13], data@[14], data@[15])
                &&& p.1 == be32(data@[16], data@[17], data@[18], data@[19])
                &&& p.2 == data@[9]
                &&& (data@.len() > (data@[0] % 16) * 4 ==> p.3@ == data@.subrange(
                    (data@[0] % 16) * 4,
                    data@.len() as int,
                ))
                &&& (data@.len() <= (data@[0] % 16) * 4 ==> p.3@.len() == 0)
            },
            None => true,
        },
{
    if data.len() < 20 {
        return None;
    }
    let version = data[0] / 16;
    if version != 4 {
        return None;
    }
    let ihl = (data[0] % 16) as usize * 4;
    let payload = if data.len() > ihl {
        copy_range(data, ihl, data.len())
    } else {
        Vec::new()
    };
    Some((read_be32(data, 12), read_be32(data, 16), data[9], payload))
}

/// The sanity test applied to each captured IPv4 datagram before it is
/// counted as healthy: plausible header and total lengths, version 4,
/// and addresses that can occur on a real conversation (no unspecified
/// or broadcast source, no unspecified destination, and loopback only
/// talking to loopback).
pub fn verify_packet(data: &[u8]) -> (r: bool)
    ensures
        r <==> {
            &&& data@.len() >= 20
            &&& (data@[0] % 16) * 4 >= 20
            &&& (data@[0] % 16) * 4 <= data@.len()
            &&& be16(data@[2], data@[3]) >= (data@[0] % 16) * 4
            &&& be16(data@[2], data@[3]) <= data@.len()
            &&& data@[0] / 16 == 4
            &&& be32(data@[12], data@[13], data@[14], data@[15]) != 0
            &&& be32(data@[12], data@[13], data@[14], data@[15]) != 0xFFFF_FFFF
            &&& be32(data@[16], data@[17], data@[18], data@[19]) != 0
            &&& (data@[12] == 127 ==> data@[16] == 127)
        },
{
    if data.len() < 20 {
        return false;
    }
    let header_len = (data[0] % 16) as usize * 4;
    if header_len < 20 || header_len > data.len() {
        return false;
    }
    let total_length = read_be16(data, 2) as usize;
    if total_length < header_len || total_length > data.len() {
        return false;
    }
    if data[0] / 16 != 4 {
        return false;
    }
    let src = read_be32(data, 12);
    let dst = read_be32(data, 16);
    if src == 0 || src == 0xFFFF_FFFF || dst == 0 {
        return false;
    }
    if data[12] == 127 && data[16] != 127 {
        return false;
    }
    true
}

} // verus!
