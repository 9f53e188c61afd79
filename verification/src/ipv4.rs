//! The two addresses of an IPv4 header, read by `etherparse`.

use etherparse::Ipv4HeaderSlice;
use vstd::prelude::*;

verus! {

/// Length of an IPv4 header without options.
pub const IPV4_MIN_HEADER_LEN: usize = 20;

/// The number whose four bytes, most significant first, are `b`: an IPv4
/// address as it stands in a header.
pub open spec fn be_value(b: Seq<u8>) -> u32
    recommends
        b.len() == 4,
{
    (16777216 * b[0] + 65536 * b[1] + 256 * b[2] + b[3]) as u32
}

/// Whether `packet` starts with an IPv4 header: 20 bytes at least, version
/// 4 in the upper half of the first byte, a header length of five words or
/// more in its lower half, and as many bytes as that length announces.
pub open spec fn has_ipv4_header(packet: Seq<u8>) -> bool {
    &&& packet.len() >= IPV4_MIN_HEADER_LEN
    &&& packet[0] / 16 == 4
    &&& packet[0] % 16 >= 5
    &&& packet.len() >= (packet[0] % 16) * 4
}

/// Source and destination address of the IPv4 header that `packet` starts
/// with: bytes 12 to 15 and 16 to 19.
pub open spec fn ipv4_addresses(packet: Seq<u8>) -> Option<(u32, u32)> {
    if has_ipv4_header(packet) {
        Some((be_value(packet.subrange(12, 16)), be_value(packet.subrange(16, 20))))
    } else {
        None
    }
}

/// `Ipv4HeaderSlice::from_slice`, then `source_addr` and `destination_addr`:
/// the two addresses of the header, where the slice passes the checks that
/// [`has_ipv4_header`] writes out, and nothing where it fails one. The total
/// length field and the checksum are not looked at.
#[verifier::external_body]
pub(crate) fn read_ipv4_addresses(packet: &[u8]) -> (addresses: Option<(u32, u32)>)
    ensures
        addresses == ipv4_addresses(packet@),
{
    match Ipv4HeaderSlice::from_slice(packet) {
        Ok(header) => Some((u32::from(header.source_addr()), u32::from(header.destination_addr()))),
        Err(_) => None,
    }
}

} // verus!
