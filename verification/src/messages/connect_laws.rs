//! What holds of every CONNECT message.

use crate::buffer::laws::be16_reads_back;
use crate::buffer::read::be_value;
use crate::buffer::write::{be16, be32, zero_bytes};
use crate::config::connect_descriptor;
use crate::constants::{PacketType, PACKET_HEADER_SIZE};
use crate::messages::connect::{
    connect_fields, connect_packet, continuation_packet, leading_fields, needs_split,
    trailing_fields, ConnectMessage, CONNECT_DATA_OFFSET,
};
use crate::packet::{header_describes_packet, packet_bytes};
use crate::text::{decimal, decimal_reads_back, number_u32};
use vstd::prelude::*;
use vstd::utf8::encode_utf8;

verus! {

/// The fields before the connect data have fixed places.
proof fn lemma_connect_fields(message: ConnectMessage)
    ensures
        connect_fields(message).len() == 74,
        connect_fields(message).take(2) == be16(message.version_desired),
        connect_fields(message).subrange(2, 4) == be16(message.version_minimum),
        connect_fields(message).subrange(16, 18) == be16(
            encode_utf8(message.connect_data@).len() as u16,
        ),
        connect_fields(message).subrange(18, 20) == be16(CONNECT_DATA_OFFSET),
        connect_fields(message).subrange(66, 74) == zero_bytes(8),
{
    let leading = leading_fields(message);
    let trailing = trailing_fields(message);
    let length = be16(encode_utf8(message.connect_data@).len() as u16);
    assert(leading.len() == 16);
    assert(trailing.len() == 54);
    assert(leading.take(2) =~= be16(message.version_desired));
    assert(leading.subrange(2, 4) =~= be16(message.version_minimum));
    let fields = leading + length + be16(CONNECT_DATA_OFFSET) + trailing;
    assert(fields.take(2) =~= leading.take(2));
    assert(fields.subrange(2, 4) =~= leading.subrange(2, 4));
    assert(fields.subrange(16, 18) =~= length);
    assert(fields.subrange(18, 20) =~= be16(CONNECT_DATA_OFFSET));
    assert(fields.subrange(66, 74) =~= zero_bytes(8));
}

/// The CONNECT packet names the offset of the connect data, and the connect data stands there,
/// right behind the zero bytes of the cross facility item: the whole of it, or, where it is left to
/// the DATA packet, nothing.
pub proof fn offset_points_at_connect_data(message: ConnectMessage)
    ensures
        ({
            let packet = connect_packet(message);
            &&& packet[4] == PacketType::Connect.spec_code()
            &&& be_value(packet.subrange(26, 28)) == CONNECT_DATA_OFFSET
            &&& packet.skip(PACKET_HEADER_SIZE as int).subrange(66, 74) == zero_bytes(8)
            &&& packet.skip(CONNECT_DATA_OFFSET as int) == (if needs_split(message) {
                Seq::empty()
            } else {
                encode_utf8(message.connect_data@)
            })
        }),
{
    lemma_connect_fields(message);
    let fields = connect_fields(message);
    let data = if needs_split(message) {
        Seq::empty()
    } else {
        encode_utf8(message.connect_data@)
    };
    assert(fields + Seq::<u8>::empty() =~= fields);
    let packet = packet_bytes(PacketType::Connect, fields + data, false);
    header_describes_packet(PacketType::Connect, fields + data, false);
    assert(packet.subrange(26, 28) =~= packet.skip(PACKET_HEADER_SIZE as int).subrange(18, 20));
    assert((fields + data).subrange(18, 20) =~= fields.subrange(18, 20));
    be16_reads_back(CONNECT_DATA_OFFSET);
    let behind = packet.skip(PACKET_HEADER_SIZE as int);
    assert(packet.skip(CONNECT_DATA_OFFSET as int) =~= behind.skip(74));
    assert(behind.subrange(66, 74) =~= fields.subrange(66, 74));
    assert((fields + data).skip(74) =~= data);
}

/// The CONNECT packet names the versions that the client can speak and the length of the connect
/// data, where two bytes can hold it, also where the connect data is left to the DATA packet.
pub proof fn connect_packet_names_versions_and_length(message: ConnectMessage)
    ensures
        ({
            let packet = connect_packet(message);
            let length = encode_utf8(message.connect_data@).len();
            &&& be_value(packet.subrange(8, 10)) == message.version_desired
            &&& be_value(packet.subrange(10, 12)) == message.version_minimum
            &&& length <= u16::MAX ==> be_value(packet.subrange(24, 26)) == length
        }),
{
    lemma_connect_fields(message);
    let fields = connect_fields(message);
    let data = if needs_split(message) {
        Seq::empty()
    } else {
        encode_utf8(message.connect_data@)
    };
    let length = encode_utf8(message.connect_data@).len();
    assert(fields + Seq::<u8>::empty() =~= fields);
    let payload = fields + data;
    let packet = packet_bytes(PacketType::Connect, payload, false);
    header_describes_packet(PacketType::Connect, payload, false);
    let behind = packet.skip(PACKET_HEADER_SIZE as int);
    assert(packet.subrange(8, 10) =~= behind.take(2));
    assert(packet.subrange(10, 12) =~= behind.subrange(2, 4));
    assert(packet.subrange(24, 26) =~= behind.subrange(16, 18));
    assert(payload.take(2) =~= fields.take(2));
    assert(payload.subrange(2, 4) =~= fields.subrange(2, 4));
    assert(payload.subrange(16, 18) =~= fields.subrange(16, 18));
    be16_reads_back(message.version_desired);
    be16_reads_back(message.version_minimum);
    be16_reads_back(length as u16);
}

/// No byte of the connect data is lost: it ends the CONNECT packet, or, where that ends before it,
/// stands in the DATA packet behind the data flags.
pub proof fn connect_data_is_carried_once(message: ConnectMessage)
    ensures
        connect_packet(message).skip(CONNECT_DATA_OFFSET as int) + (if needs_split(message) {
            continuation_packet(message).skip(10)
        } else {
            Seq::empty()
        }) == encode_utf8(message.connect_data@),
        continuation_packet(message)[4] == PacketType::Data.spec_code(),
{
    offset_points_at_connect_data(message);
    let data = encode_utf8(message.connect_data@);
    let payload = be16(0) + data;
    let packet = packet_bytes(PacketType::Data, payload, false);
    header_describes_packet(PacketType::Data, payload, false);
    assert(packet.skip(10) =~= packet.skip(PACKET_HEADER_SIZE as int).skip(2));
    assert(payload.skip(2) =~= data);
    assert(Seq::<u8>::empty() + data =~= data);
    assert(data + Seq::<u8>::empty() =~= data);
}

/// The number that two bytes stand for, most significant first.
pub open spec fn two_bytes(bytes: Seq<u8>, at: int) -> int {
    bytes[at] * 0x100 + bytes[at + 1]
}

/// The number that four bytes stand for, most significant first.
pub open spec fn four_bytes(bytes: Seq<u8>, at: int) -> int {
    bytes[at] * 0x100_0000 + bytes[at + 1] * 0x1_0000 + bytes[at + 2] * 0x100 + bytes[at + 3]
}

/// The bytes of the leading fields.
proof fn lemma_leading_bytes(message: ConnectMessage)
    ensures
        ({
            let fields = leading_fields(message);
            &&& fields.len() == 16
            &&& two_bytes(fields, 0) == message.version_desired
            &&& two_bytes(fields, 2) == message.version_minimum
            &&& two_bytes(fields, 4) == message.service_options
            &&& two_bytes(fields, 6) == (if message.sdu < 65535 {
                message.sdu as int
            } else {
                65535
            })
            &&& two_bytes(fields, 8) == (if message.tdu < 65535 {
                message.tdu as int
            } else {
                65535
            })
            &&& two_bytes(fields, 10) == message.protocol_characteristics
            &&& two_bytes(fields, 12) == 0
            &&& two_bytes(fields, 14) == 1
        }),
{
}

/// The bytes of the trailing fields.
proof fn lemma_trailing_bytes(message: ConnectMessage)
    ensures
        ({
            let fields = trailing_fields(message);
            &&& fields.len() == 54
            &&& four_bytes(fields, 0) == 0
            &&& fields[4] == message.nsi_flags
            &&& fields[5] == message.nsi_flags
            &&& forall|i: int| 6 <= i < 30 ==> #[trigger] fields[i] == 0
            &&& four_bytes(fields, 30) == message.sdu
            &&& four_bytes(fields, 34) == message.tdu
            &&& four_bytes(fields, 38) == message.connect_flags_1
            &&& four_bytes(fields, 42) == message.connect_flags_2
            &&& forall|i: int| 46 <= i < 54 ==> #[trigger] fields[i] == 0
        }),
{
    lemma_four_bytes(0);
    lemma_four_bytes(message.sdu);
    lemma_four_bytes(message.tdu);
    lemma_four_bytes(message.connect_flags_1);
    lemma_four_bytes(message.connect_flags_2);
    lemma_trailing_parts(
        be32(0),
        seq![message.nsi_flags, message.nsi_flags],
        zero_bytes(24),
        be32(message.sdu),
        be32(message.tdu),
        be32(message.connect_flags_1),
        be32(message.connect_flags_2),
        zero_bytes(8),
    );
}

/// Four bytes stand for the number that they were made of.
proof fn lemma_four_bytes(value: u32)
    ensures
        be32(value).len() == 4,
        four_bytes(be32(value), 0) == value,
{
}

/// Where the parts of the trailing fields stand.
proof fn lemma_trailing_parts(
    a: Seq<u8>,
    b: Seq<u8>,
    c: Seq<u8>,
    d: Seq<u8>,
    e: Seq<u8>,
    f: Seq<u8>,
    g: Seq<u8>,
    h: Seq<u8>,
)
    requires
        a.len() == 4,
        b.len() == 2,
        c.len() == 24,
        d.len() == 4,
        e.len() == 4,
        f.len() == 4,
        g.len() == 4,
        h.len() == 8,
    ensures
        ({
            let whole = a + b + c + d + e + f + g + h;
            &&& whole.len() == 54
            &&& four_bytes(whole, 0) == four_bytes(a, 0)
            &&& whole[4] == b[0]
            &&& whole[5] == b[1]
            &&& forall|i: int| 6 <= i < 30 ==> #[trigger] whole[i] == c[i - 6]
            &&& four_bytes(whole, 30) == four_bytes(d, 0)
            &&& four_bytes(whole, 34) == four_bytes(e, 0)
            &&& four_bytes(whole, 38) == four_bytes(f, 0)
            &&& four_bytes(whole, 42) == four_bytes(g, 0)
            &&& forall|i: int| 46 <= i < 54 ==> #[trigger] whole[i] == h[i - 46]
        }),
{
}

/// Every field behind the header of the CONNECT packet stands at its place and holds what it is to
/// hold. The two bytes of either size hold the size, or 65535 where the size is larger; the four
/// bytes further behind hold the size itself.
pub proof fn every_field_has_its_place(message: ConnectMessage)
    ensures
        ({
            let behind = connect_packet(message).skip(8);
            let data = encode_utf8(message.connect_data@);
            &&& behind.len() == 74 + (if data.len() <= 230 {
                data.len()
            } else {
                0
            })
            &&& two_bytes(behind, 0) == message.version_desired
            &&& two_bytes(behind, 2) == message.version_minimum
            &&& two_bytes(behind, 4) == message.service_options
            &&& two_bytes(behind, 6) == (if message.sdu < 65535 {
                message.sdu as int
            } else {
                65535
            })
            &&& two_bytes(behind, 8) == (if message.tdu < 65535 {
                message.tdu as int
            } else {
                65535
            })
            &&& two_bytes(behind, 10) == message.protocol_characteristics
            &&& two_bytes(behind, 12) == 0
            &&& two_bytes(behind, 14) == 1
            &&& data.len() <= 65535 ==> two_bytes(behind, 16) == data.len()
            &&& two_bytes(behind, 18) == 82
            &&& four_bytes(behind, 20) == 0
            &&& behind[24] == message.nsi_flags
            &&& behind[25] == message.nsi_flags
            &&& forall|i: int| 26 <= i < 50 ==> #[trigger] behind[i] == 0
            &&& four_bytes(behind, 50) == message.sdu
            &&& four_bytes(behind, 54) == message.tdu
            &&& four_bytes(behind, 58) == message.connect_flags_1
            &&& four_bytes(behind, 62) == message.connect_flags_2
            &&& forall|i: int| 66 <= i < 74 ==> #[trigger] behind[i] == 0
            &&& data.len() <= 230 ==> behind.skip(74) == data
        }),
{
    let data = encode_utf8(message.connect_data@);
    let fields = connect_fields(message);
    let carried = if needs_split(message) {
        Seq::empty()
    } else {
        data
    };
    assert(fields + Seq::<u8>::empty() =~= fields);
    let payload = fields + carried;
    header_describes_packet(PacketType::Connect, payload, false);
    lemma_leading_bytes(message);
    lemma_trailing_bytes(message);
    let leading = leading_fields(message);
    let trailing = trailing_fields(message);
    assert(fields.len() == 74);
    assert forall|i: int| 0 <= i < 16 implies #[trigger] payload[i] == leading[i] by {}
    assert forall|i: int| 0 <= i < 54 implies payload[20 + i] == #[trigger] trailing[i] by {}
    assert(payload.skip(74) =~= carried);
    assert(payload[18] == be16(CONNECT_DATA_OFFSET)[0]);
    assert(payload[19] == be16(CONNECT_DATA_OFFSET)[1]);
    assert(payload[16] == be16(data.len() as u16)[0]);
    assert(payload[17] == be16(data.len() as u16)[1]);
    assert forall|i: int| 26 <= i < 50 implies #[trigger] payload[i] == 0 by {
        assert(payload[20 + (i - 20)] == trailing[i - 20]);
    }
    assert forall|i: int| 66 <= i < 74 implies #[trigger] payload[i] == 0 by {
        assert(payload[20 + (i - 20)] == trailing[i - 20]);
    }
    lemma_same_bytes(payload, trailing);
}

/// The numbers in some bytes are those in the bytes behind them.
proof fn lemma_same_bytes(payload: Seq<u8>, trailing: Seq<u8>)
    requires
        trailing.len() == 54,
        forall|i: int| 0 <= i < 54 ==> payload[20 + i] == #[trigger] trailing[i],
    ensures
        four_bytes(payload, 20) == four_bytes(trailing, 0),
        payload[24] == trailing[4],
        payload[25] == trailing[5],
        four_bytes(payload, 50) == four_bytes(trailing, 30),
        four_bytes(payload, 54) == four_bytes(trailing, 34),
        four_bytes(payload, 58) == four_bytes(trailing, 38),
        four_bytes(payload, 62) == four_bytes(trailing, 42),
{
    assert forall|i: int| 20 <= i < 74 implies #[trigger] payload[i] == trailing[i - 20] by {
        assert(payload[20 + (i - 20)] == trailing[i - 20]);
    }
}

/// The headers of both packets hold their length, where two bytes can, and their type, and are zero
/// elsewhere. Behind the header of the DATA packet stand two zero bytes and the connect data.
pub proof fn headers_of_both_packets(message: ConnectMessage)
    ensures
        ({
            let packet = connect_packet(message);
            &&& packet.len() <= 312
            &&& two_bytes(packet, 0) == packet.len()
            &&& packet[2] == 0 && packet[3] == 0
            &&& packet[4] == 1
            &&& packet[5] == 0 && packet[6] == 0 && packet[7] == 0
        }),
        ({
            let packet = continuation_packet(message);
            &&& packet.len() == 10 + encode_utf8(message.connect_data@).len()
            &&& packet.len() <= 65535 ==> two_bytes(packet, 0) == packet.len()
            &&& packet[2] == 0 && packet[3] == 0
            &&& packet[4] == 6
            &&& packet[5] == 0 && packet[6] == 0 && packet[7] == 0
            &&& packet[8] == 0 && packet[9] == 0
            &&& packet.skip(10) == encode_utf8(message.connect_data@)
        }),
        needs_split(message) <==> encode_utf8(message.connect_data@).len() > 230,
{
    every_field_has_its_place(message);
    let data = encode_utf8(message.connect_data@);
    assert(continuation_packet(message).skip(10) =~= data);
}

/// The connect descriptor holds the host and the service as they were given, and the port in
/// digits.
pub proof fn descriptor_names_host_and_service(
    host: Seq<char>,
    port: u16,
    service_name: Seq<char>,
)
    ensures
        connect_descriptor(host, port, service_name)
            == "(DESCRIPTION=(ADDRESS=(PROTOCOL=tcp)(HOST="@ + host + ")(PORT="@ + decimal(
            port as nat,
        ) + "))(CONNECT_DATA=(SERVICE_NAME="@ + service_name + ")))"@,
        exists|at: int|
            0 <= at <= connect_descriptor(host, port, service_name).len() - host.len()
                && #[trigger] connect_descriptor(host, port, service_name).subrange(
                at,
                at + host.len(),
            ) == host,
        exists|at: int|
            0 <= at <= connect_descriptor(host, port, service_name).len() - service_name.len()
                && #[trigger] connect_descriptor(host, port, service_name).subrange(
                at,
                at + service_name.len(),
            ) == service_name,
        exists|at: int, digits: Seq<char>|
            0 <= at <= connect_descriptor(host, port, service_name).len() - digits.len() - 8
                && number_u32(digits) == Some(port as u32) && #[trigger] connect_descriptor(
                host,
                port,
                service_name,
            ).subrange(at, at + digits.len() + 8) == ")(PORT="@ + #[trigger] digits.push(')'),
{
    let whole = connect_descriptor(host, port, service_name);
    let front = "(DESCRIPTION=(ADDRESS=(PROTOCOL=tcp)(HOST="@;
    let port_text = decimal(port as nat);
    let middle = front + host + ")(PORT="@ + port_text + "))(CONNECT_DATA=(SERVICE_NAME="@;
    assert(whole =~= middle + service_name + ")))"@);
    let at = front.len() as int;
    assert(whole.subrange(at, at + host.len()) =~= host);
    let behind = middle.len() as int;
    assert(whole.subrange(behind, behind + service_name.len()) =~= service_name);
    reveal_strlit(")(PORT=");
    reveal_strlit("))(CONNECT_DATA=(SERVICE_NAME=");
    decimal_reads_back(port as u32);
    let port_at = at + host.len();
    assert(whole.subrange(port_at, port_at + port_text.len() + 8) =~= ")(PORT="@ + port_text.push(
        ')',
    ));
}

} // verus!
