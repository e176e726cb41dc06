use vstd::prelude::*;

use byteorder::ByteOrder;

verus! {

/// The two bytes of `n` in network (big-endian) order.
pub open spec fn be16(n: u16) -> Seq<u8> {
    seq![(n / 256) as u8, (n % 256) as u8]
}

/// The number that two bytes in network order stand for.
pub open spec fn be16_value(hi: u8, lo: u8) -> u16 {
    (hi as int * 256 + lo as int) as u16
}

/// Relies on byteorder's `NetworkEndian::read_u16`: the first two bytes of
/// `buf`, most significant first.
#[verifier::external_body]
pub(crate) fn read_be16(buf: &[u8]) -> (r: u16)
    requires
        buf@.len() >= 2,
    ensures
        r == be16_value(buf@[0], buf@[1]),
{
    byteorder::NetworkEndian::read_u16(buf)
}

/// Relies on byteorder's `NetworkEndian::write_u16`: stores `n` most
/// significant byte first.
#[verifier::external_body]
pub(crate) fn write_be16(n: u16) -> (r: [u8; 2])
    ensures
        r@ == be16(n),
{
    let mut buf = [0u8; 2];
    byteorder::NetworkEndian::write_u16(&mut buf, n);
    buf
}

/// Decoding the network-order bytes of a number gives the number back.
pub proof fn lemma_be16_round_trip(n: u16)
    ensures
        be16_value(be16(n)[0], be16(n)[1]) == n,
{
}

} // verus!
