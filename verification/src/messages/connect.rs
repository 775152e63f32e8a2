//! CONNECT message
//!
//! The CONNECT packet is sent by the client to initiate a connection to the Oracle server.
//!
//! Packet structure (after 8-byte TNS header):
//! ```text
//! Offset | Size | Description
//! -------+------+------------------
//!      0 |    2 | Protocol version (desired)
//!      2 |    2 | Protocol version (minimum)
//!      4 |    2 | Service options
//!      6 |    2 | SDU size
//!      8 |    2 | TDU size
//!     10 |    2 | Protocol characteristics
//!     12 |    2 | Line turnaround (0)
//!     14 |    2 | Value of 1
//!     16 |    2 | Connect data length
//!     18 |    2 | Connect data offset (from the start of the packet: 82)
//!     20 |    4 | Max receivable data (0)
//!     24 |    1 | NSI flags 1
//!     25 |    1 | NSI flags 2
//!     26 |   24 | Obsolete/reserved (zeros)
//!     50 |    4 | SDU (large)
//!     54 |    4 | TDU (large)
//!     58 |    4 | Connect flags 1
//!     62 |    4 | Connect flags 2
//!     66 |    8 | Cross facility item 1 (0)
//!     74 |    n | Connect data (TNS connect descriptor)
//! ```

use crate::buffer::write::{be16, be32, zero_bytes};
use crate::buffer::WriteBuffer;
use crate::config::{connect_descriptor, Config};
use crate::constants::{
    connection, nsi_flags, service_options, version, PacketType, PACKET_HEADER_SIZE,
};
use crate::error::Result;
use crate::packet::{content, packet_bytes, seal_packet};
use bytes::Bytes;
use vstd::prelude::*;
use vstd::utf8::encode_utf8;

verus! {

/// Connect message sent to initiate a connection
#[derive(Debug)]
pub struct ConnectMessage {
    /// Desired protocol version
    pub version_desired: u16,
    /// Minimum acceptable protocol version
    pub version_minimum: u16,
    /// Service options flags
    pub service_options: u16,
    /// Session Data Unit size
    pub sdu: u32,
    /// Transport Data Unit size
    pub tdu: u32,
    /// Protocol characteristics
    pub protocol_characteristics: u16,
    /// NSI flags
    pub nsi_flags: u8,
    /// Connect flags 1
    pub connect_flags_1: u32,
    /// Connect flags 2
    pub connect_flags_2: u32,
    /// Connect data (TNS descriptor)
    pub connect_data: String,
    /// Whether OOB (Out of Band) is supported
    pub supports_oob: bool,
}

/// Where the connect data stands, from the start of the packet.
pub const CONNECT_DATA_OFFSET: u16 = 82;

/// A size as far as two bytes can hold it.
pub open spec fn capped(size: u32) -> u16 {
    if size > 65535 {
        65535
    } else {
        size as u16
    }
}

/// The fields that stand before the length of the connect data.
pub open spec fn leading_fields(message: ConnectMessage) -> Seq<u8> {
    be16(message.version_desired) + be16(message.version_minimum) + be16(message.service_options)
        + be16(capped(message.sdu)) + be16(capped(message.tdu)) + be16(
        message.protocol_characteristics,
    ) + be16(0) + be16(1)
}

/// The fields that stand behind the offset of the connect data.
pub open spec fn trailing_fields(message: ConnectMessage) -> Seq<u8> {
    be32(0) + seq![message.nsi_flags, message.nsi_flags] + zero_bytes(24) + be32(message.sdu)
        + be32(message.tdu) + be32(message.connect_flags_1) + be32(message.connect_flags_2)
        + zero_bytes(8)
}

/// All that stands between the packet header and the connect data.
pub open spec fn connect_fields(message: ConnectMessage) -> Seq<u8> {
    leading_fields(message) + be16(encode_utf8(message.connect_data@).len() as u16) + be16(
        CONNECT_DATA_OFFSET,
    ) + trailing_fields(message)
}

/// True of a message whose connect data does not fit in the CONNECT packet.
pub open spec fn needs_split(message: ConnectMessage) -> bool {
    encode_utf8(message.connect_data@).len() > connection::MAX_CONNECT_DATA
}

/// The CONNECT packet.
pub open spec fn connect_packet(message: ConnectMessage) -> Seq<u8> {
    packet_bytes(
        PacketType::Connect,
        if needs_split(message) {
            connect_fields(message)
        } else {
            connect_fields(message) + encode_utf8(message.connect_data@)
        },
        false,
    )
}

/// The DATA packet that carries connect data which does not fit in the CONNECT packet.
pub open spec fn continuation_packet(message: ConnectMessage) -> Seq<u8> {
    packet_bytes(PacketType::Data, be16(0) + encode_utf8(message.connect_data@), false)
}

/// A size as far as two bytes can hold it
fn cap(size: u32) -> (short: u16)
    ensures
        short == capped(size),
{
    if size > 65535 {
        65535
    } else {
        size as u16
    }
}

impl ConnectMessage {
    /// Create a new CONNECT message from configuration
    pub fn from_config(config: &Config) -> (message: Self)
        ensures
            message.version_desired == 319,
            message.version_minimum == 300,
            message.service_options == 0x0401,
            message.sdu == config.sdu,
            message.tdu == 65535,
            message.protocol_characteristics == 0x4f98,
            message.nsi_flags == 0x84,
            message.connect_flags_1 == 0,
            message.connect_flags_2 == 1,
            message.connect_data@ == connect_descriptor(
                config.host@,
                config.port,
                config.service_name@,
            ),
            message.supports_oob,
    {
        let connect_data = config.build_connect_string();
        assert(0x0001u16 | 0x0400u16 == 0x0401u16) by (bit_vector);
        assert(0x80u8 | 0x04u8 == 0x84u8) by (bit_vector);
        ConnectMessage {
            version_desired: version::DESIRED,
            version_minimum: version::MINIMUM,
            // Enable OOB support
            service_options: service_options::DONT_CARE | service_options::CAN_RECV_ATTENTION,
            sdu: config.sdu,
            tdu: connection::DEFAULT_TDU as u32,
            protocol_characteristics: connection::PROTOCOL_CHARACTERISTICS,
            nsi_flags: nsi_flags::SUPPORT_SECURITY_RENEG | nsi_flags::DISABLE_NA,
            connect_flags_1: 0,
            connect_flags_2: connection::CHECK_OOB,
            connect_data,
            supports_oob: true,
        }
    }

    /// Start the CONNECT packet: space for the header, and all fields before the connect data
    fn begin_connect(&self) -> (buf: WriteBuffer)
        ensures
            buf@ == zero_bytes(PACKET_HEADER_SIZE as nat) + connect_fields(*self),
    {
        let mut buf = WriteBuffer::with_capacity(512);
        // Reserve space for header (will be written at the end)
        buf.write_zeros(PACKET_HEADER_SIZE);
        self.write_leading_fields(&mut buf);
        // Connect data length
        let connect_data_len: usize = self.connect_data.as_str().as_bytes().len();
        buf.write_u16_be(connect_data_len as u16);
        // Connect data offset (from start of packet)
        buf.write_u16_be(CONNECT_DATA_OFFSET);
        self.write_trailing_fields(&mut buf);
        // Now we're at the offset of the connect data
        assert(buf@ =~= zero_bytes(PACKET_HEADER_SIZE as nat) + connect_fields(*self));
        buf
    }

    /// Write the fields that stand before the length of the connect data
    fn write_leading_fields(&self, buf: &mut WriteBuffer)
        ensures
            final(buf)@ == old(buf)@ + leading_fields(*self),
    {
        // Protocol versions
        buf.write_u16_be(self.version_desired);
        buf.write_u16_be(self.version_minimum);
        // Service options
        buf.write_u16_be(self.service_options);
        // SDU/TDU (16-bit for compatibility)
        buf.write_u16_be(cap(self.sdu));
        buf.write_u16_be(cap(self.tdu));
        // Protocol characteristics
        buf.write_u16_be(self.protocol_characteristics);
        // Line turnaround (unused)
        buf.write_u16_be(0);
        // Value of 1 (required)
        buf.write_u16_be(1);
        assert(buf@ =~= old(buf)@ + leading_fields(*self));
    }

    /// Write the fields that stand behind the offset of the connect data
    fn write_trailing_fields(&self, buf: &mut WriteBuffer)
        ensures
            final(buf)@ == old(buf)@ + trailing_fields(*self),
    {
        // Max receivable data (unused, 0)
        buf.write_u32_be(0);
        // NSI flags (connect flags 0 and 1)
        buf.write_u8(self.nsi_flags);
        buf.write_u8(self.nsi_flags);
        // Obsolete bytes (24 bytes of zeros)
        buf.write_zeros(24);
        // SDU (32-bit)
        buf.write_u32_be(self.sdu);
        // TDU (32-bit)
        buf.write_u32_be(self.tdu);
        // Connect flags
        buf.write_u32_be(self.connect_flags_1);
        buf.write_u32_be(self.connect_flags_2);
        // Cross facility item 1 (unused, 0)
        buf.write_zeros(8);
        assert(buf@ =~= old(buf)@ + trailing_fields(*self));
    }

    /// Build the CONNECT packet bytes
    ///
    /// Connect data of more than 230 bytes is left to a separate DATA packet.
    pub fn build(&self) -> (result: Result<Bytes>)
        ensures
            result matches Ok(packet) && content(packet) == connect_packet(*self),
    {
        let connect_data_bytes = self.connect_data.as_str().as_bytes();
        let mut buf = self.begin_connect();
        // If connect data fits, write it here
        if connect_data_bytes.len() <= connection::MAX_CONNECT_DATA as usize {
            buf.write_bytes(connect_data_bytes);
            assert(buf@.skip(PACKET_HEADER_SIZE as int) =~= connect_fields(*self)
                + connect_data_bytes@);
        } else {
            assert(buf@.skip(PACKET_HEADER_SIZE as int) =~= connect_fields(*self));
        }
        Ok(seal_packet(buf, PacketType::Connect, false))
    }

    /// Build the CONNECT packet and optional DATA packet for large connect strings
    ///
    /// Returns a tuple of (CONNECT packet, optional DATA packet)
    pub fn build_with_continuation(&self) -> (result: Result<(Bytes, Option<Bytes>)>)
        ensures
            result matches Ok(packets) && content(packets.0) == connect_packet(*self) && (
            match packets.1 {
                None => !needs_split(*self),
                Some(data) => needs_split(*self) && content(data) == continuation_packet(*self),
            }),
    {
        let connect_data_bytes = self.connect_data.as_str().as_bytes();
        if connect_data_bytes.len() <= connection::MAX_CONNECT_DATA as usize {
            return match self.build() {
                Ok(packet) => Ok((packet, None)),
                Err(error) => Err(error),
            };
        }
        // Build CONNECT packet without data

        let connect_buf = self.begin_connect();
        assert(connect_buf@.skip(PACKET_HEADER_SIZE as int) =~= connect_fields(*self));
        let connect = seal_packet(connect_buf, PacketType::Connect, false);
        // Build DATA packet with connect data
        let mut data_buf = WriteBuffer::with_capacity(512);
        // Header placeholder
        data_buf.write_zeros(PACKET_HEADER_SIZE);
        // Data flags (0 for connect continuation)
        data_buf.write_u16_be(0);
        // Connect data
        data_buf.write_bytes(connect_data_bytes);
        assert(data_buf@.skip(PACKET_HEADER_SIZE as int) =~= be16(0) + connect_data_bytes@);
        let data = seal_packet(data_buf, PacketType::Data, false);
        Ok((connect, Some(data)))
    }
}

} // verus!
