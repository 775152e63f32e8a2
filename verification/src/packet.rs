//! Packets: a header and a payload.
//!
//! Header structure:
//! ```text
//! Offset | Size | Description
//! -------+------+------------------
//!      0 |    2 | Packet length, then two zero bytes (four bytes of length with a large SDU)
//!      4 |    1 | Packet type
//!      5 |    1 | Flags
//!      6 |    2 | Header checksum (0)
//! ```

use crate::buffer::write::{be16, be32};
use crate::buffer::WriteBuffer;
use crate::constants::{PacketType, PACKET_HEADER_SIZE};
use bytes::Bytes;
use vstd::prelude::*;

verus! {

/// The cheaply cloneable byte string of the `bytes` crate.
#[verifier::external_type_specification]
#[verifier::external_body]
pub struct ExBytes(bytes::Bytes);

/// The bytes that a [`Bytes`] holds.
pub uninterp spec fn content(bytes: Bytes) -> Seq<u8>;

/// Calls `<Bytes as From<Vec<u8>>>::from`. Claims that the result holds the bytes of the vector.
#[verifier::external_body]
pub(crate) fn freeze(bytes: Vec<u8>) -> (frozen: Bytes)
    ensures
        content(frozen) == bytes@,
{
    Bytes::from(bytes)
}

/// Calls `<Bytes as AsRef<[u8]>>::as_ref`. Claims that the slice is what the value holds.
#[verifier::external_body]
pub(crate) fn content_slice(bytes: &Bytes) -> (slice: &[u8])
    ensures
        slice@ == content(*bytes),
{
    bytes.as_ref()
}

/// The bytes of a packet header.
pub open spec fn header_bytes(
    packet_type: PacketType,
    length: u32,
    flags: u8,
    large_sdu: bool,
) -> Seq<u8> {
    (if large_sdu {
        be32(length)
    } else {
        be16(length as u16) + be16(0)
    }) + seq![packet_type.spec_code(), flags] + be16(0)
}

/// The bytes of a packet without flags, header and payload.
pub open spec fn packet_bytes(packet_type: PacketType, payload: Seq<u8>, large_sdu: bool) -> Seq<
    u8,
> {
    header_bytes(packet_type, (PACKET_HEADER_SIZE + payload.len()) as u32, 0, large_sdu) + payload
}

/// Header of a packet.
#[derive(Debug, Clone, Copy)]
pub struct PacketHeader {
    /// Length of the packet, header included
    pub length: u32,
    /// Kind of packet
    pub packet_type: PacketType,
    /// Flags
    pub flags: u8,
}

impl PacketHeader {
    /// Create a header without flags
    pub fn new(packet_type: PacketType, length: u32) -> (header: Self)
        ensures
            header == (PacketHeader { length, packet_type, flags: 0 }),
    {
        PacketHeader { length, packet_type, flags: 0 }
    }

    /// Write the header into a buffer
    ///
    /// Without a large SDU only the low 16 bits of the length are written.
    pub fn write(&self, buf: &mut WriteBuffer, large_sdu: bool)
        ensures
            final(buf)@ == old(buf)@ + header_bytes(
                self.packet_type,
                self.length,
                self.flags,
                large_sdu,
            ),
    {
        if large_sdu {
            buf.write_u32_be(self.length);
        } else {
            buf.write_u16_be(self.length as u16);
            buf.write_u16_be(0);
        }
        buf.write_u8(self.packet_type.code());
        buf.write_u8(self.flags);
        buf.write_u16_be(0);
        assert(buf@ =~= old(buf)@ + header_bytes(
            self.packet_type,
            self.length,
            self.flags,
            large_sdu,
        ));
    }
}

/// Write the header over the space that was reserved for it at the front of a packet.
pub(crate) fn seal_packet(buf: WriteBuffer, packet_type: PacketType, large_sdu: bool) -> (packet:
    Bytes)
    requires
        buf@.len() >= PACKET_HEADER_SIZE,
    ensures
        content(packet) == packet_bytes(
            packet_type,
            buf@.skip(PACKET_HEADER_SIZE as int),
            large_sdu,
        ),
{
    let total_len: u32 = buf.len() as u32;
    let header = PacketHeader::new(packet_type, total_len);
    let mut header_buf = WriteBuffer::with_capacity(PACKET_HEADER_SIZE);
    header.write(&mut header_buf, large_sdu);
    let ghost reserved = buf@;
    let ghost head = header_buf@;
    assert(head =~= header_bytes(packet_type, total_len, 0, large_sdu));
    let mut result: Vec<u8> = buf.into_inner();
    let header_bytes = header_buf.into_inner();
    let mut i: usize = 0;
    while i < PACKET_HEADER_SIZE
        invariant
            i <= PACKET_HEADER_SIZE,
            header_bytes@ == head,
            head.len() == PACKET_HEADER_SIZE,
            reserved.len() >= PACKET_HEADER_SIZE,
            result@ =~= head.take(i as int) + reserved.skip(i as int),
        decreases PACKET_HEADER_SIZE - i,
    {
        result[i] = header_bytes[i];
        i = i + 1;
    }
    assert(result@ =~= head + reserved.skip(PACKET_HEADER_SIZE as int));
    freeze(result)
}

/// A packet of the server.
#[derive(Debug)]
pub struct Packet {
    /// Header of the packet
    pub header: PacketHeader,
    /// What follows the header
    pub payload: Bytes,
}

impl Packet {
    /// Create a packet from its header and payload
    pub fn new(header: PacketHeader, payload: Bytes) -> (packet: Self)
        ensures
            packet == (Packet { header, payload }),
    {
        Packet { header, payload }
    }

    /// Get the kind of packet
    pub fn packet_type(&self) -> (packet_type: PacketType)
        ensures
            packet_type == self.header.packet_type,
    {
        self.header.packet_type
    }

    /// Check if the packet refuses the connection
    pub fn is_refuse(&self) -> (refuse: bool)
        ensures
            refuse == (self.header.packet_type == PacketType::Refuse),
    {
        self.header.packet_type == PacketType::Refuse
    }
}

/// The packet type stands behind the length, and the length field holds the length of the packet
/// where it has room for it: below 2^16 bytes, or below 2^32 bytes with a large SDU.
pub proof fn header_describes_packet(packet_type: PacketType, payload: Seq<u8>, large_sdu: bool)
    ensures
        ({
            let packet = packet_bytes(packet_type, payload, large_sdu);
            &&& packet.len() == PACKET_HEADER_SIZE + payload.len()
            &&& packet[4] == packet_type.spec_code()
            &&& packet.skip(PACKET_HEADER_SIZE as int) == payload
            &&& large_sdu && packet.len() <= u32::MAX ==> crate::buffer::read::be_value(
                packet.take(4),
            ) == packet.len()
            &&& !large_sdu && packet.len() <= u16::MAX ==> crate::buffer::read::be_value(
                packet.take(2),
            ) == packet.len()
        }),
{
    let packet = packet_bytes(packet_type, payload, large_sdu);
    let length = (PACKET_HEADER_SIZE + payload.len()) as u32;
    assert(packet.skip(PACKET_HEADER_SIZE as int) =~= payload);
    if large_sdu {
        assert(packet.take(4) =~= be32(length));
        crate::buffer::laws::be32_reads_back(length);
    } else {
        assert(packet.take(2) =~= be16(length as u16));
        crate::buffer::laws::be16_reads_back(length as u16);
    }
}

/// Every field of a header stands at its place: the length in two bytes and behind it two zero
/// bytes, or in four bytes with a large SDU, then the packet type, the flags, and two zero bytes.
pub proof fn header_fields_have_their_places(packet_type: PacketType, length: u32, flags: u8)
    ensures
        ({
            let header = header_bytes(packet_type, length, flags, false);
            &&& header.len() == 8
            &&& length <= 65535 ==> header[0] * 0x100 + header[1] == length
            &&& header[2] == 0 && header[3] == 0
            &&& header[4] == packet_type.spec_code()
            &&& header[5] == flags
            &&& header[6] == 0 && header[7] == 0
        }),
        ({
            let header = header_bytes(packet_type, length, flags, true);
            &&& header.len() == 8
            &&& header[0] * 0x100_0000 + header[1] * 0x1_0000 + header[2] * 0x100 + header[3]
                == length
            &&& header[4] == packet_type.spec_code()
            &&& header[5] == flags
            &&& header[6] == 0 && header[7] == 0
        }),
{
}

/// A packet starts with the header of its own length, without flags, and ends with its payload.
pub proof fn packet_is_header_and_payload(
    packet_type: PacketType,
    payload: Seq<u8>,
    large_sdu: bool,
)
    requires
        payload.len() + 8 <= u32::MAX,
    ensures
        ({
            let packet = packet_bytes(packet_type, payload, large_sdu);
            &&& packet.take(8) == header_bytes(
                packet_type,
                (payload.len() + 8) as u32,
                0,
                large_sdu,
            )
            &&& packet.skip(8) == payload
        }),
{
    let packet = packet_bytes(packet_type, payload, large_sdu);
    assert(packet.take(8) =~= header_bytes(packet_type, (payload.len() + 8) as u32, 0, large_sdu));
    assert(packet.skip(8) =~= payload);
}

} // verus!
