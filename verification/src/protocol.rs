//! Protocol constants and the logical packet identifiers.

use vstd::prelude::*;

verus! {

/// The RakNet protocol version this server speaks; a `ConnectionRequest1`
/// carrying any other version byte is answered with
/// `IncompatibleProtocolVersion`.
pub const RAKNET_VERSION: u8 = 10;

/// Logical packet identifiers, one per known wire byte. `Unknown` is a
/// sentinel for bytes that match no known identifier; it is never sent
/// on the wire.
#[derive(Clone, Copy, Debug, PartialEq, Eq, Structural)]
pub enum PacketId {
    Unknown,
    ConnectedPing,
    ConnectedPong,
    UnconnectedPing,
    UnconnectedPong,
    ConnectionRequest1,
    ConnectionReply1,
    ConnectionRequest2,
    ConnectionReply2,
    ConnectionRequest,
    ConnectionRequestAccepted,
    IncompatibleProtocolVersion,
}

/// The identifier a raw packet byte names; bytes that match no known
/// identifier map to `Unknown`.
pub open spec fn spec_packet_id_from(num: u8) -> PacketId {
    match num {
        0x00u8 => PacketId::ConnectedPing,
        0x03u8 => PacketId::ConnectedPong,
        0x01u8 => PacketId::UnconnectedPing,
        0x1cu8 => PacketId::UnconnectedPong,
        0x05u8 => PacketId::ConnectionRequest1,
        0x06u8 => PacketId::ConnectionReply1,
        0x07u8 => PacketId::ConnectionRequest2,
        0x08u8 => PacketId::ConnectionReply2,
        0x09u8 => PacketId::ConnectionRequest,
        0x10u8 => PacketId::ConnectionRequestAccepted,
        0x19u8 => PacketId::IncompatibleProtocolVersion,
        _ => PacketId::Unknown,
    }
}

/// The wire byte of each identifier; `Unknown` carries the sentinel 0xff.
pub open spec fn spec_packet_id_byte(id: PacketId) -> u8 {
    match id {
        PacketId::Unknown => 0xffu8,
        PacketId::ConnectedPing => 0x00u8,
        PacketId::ConnectedPong => 0x03u8,
        PacketId::UnconnectedPing => 0x01u8,
        PacketId::UnconnectedPong => 0x1cu8,
        PacketId::ConnectionRequest1 => 0x05u8,
        PacketId::ConnectionReply1 => 0x06u8,
        PacketId::ConnectionRequest2 => 0x07u8,
        PacketId::ConnectionReply2 => 0x08u8,
        PacketId::ConnectionRequest => 0x09u8,
        PacketId::ConnectionRequestAccepted => 0x10u8,
        PacketId::IncompatibleProtocolVersion => 0x19u8,
    }
}

impl PacketId {
    /// The byte this identifier is written as on the wire.
    pub fn to_u8(&self) -> (r: u8)
        ensures
            r == spec_packet_id_byte(*self),
    {
        match self {
            PacketId::Unknown => 0xff,
            PacketId::ConnectedPing => 0x00,
            PacketId::ConnectedPong => 0x03,
            PacketId::UnconnectedPing => 0x01,
            PacketId::UnconnectedPong => 0x1c,
            PacketId::ConnectionRequest1 => 0x05,
            PacketId::ConnectionReply1 => 0x06,
            PacketId::ConnectionRequest2 => 0x07,
            PacketId::ConnectionReply2 => 0x08,
            PacketId::ConnectionRequest => 0x09,
            PacketId::ConnectionRequestAccepted => 0x10,
            PacketId::IncompatibleProtocolVersion => 0x19,
        }
    }
}

impl From<u8> for PacketId {
    /// Classifies a raw byte as a packet identifier.
    fn from(num: u8) -> (r: PacketId) {
        if num == 0x00 {
            PacketId::ConnectedPing
        } else if num == 0x03 {
            PacketId::ConnectedPong
        } else if num == 0x01 {
            PacketId::UnconnectedPing
        } else if num == 0x1c {
            PacketId::UnconnectedPong
        } else if num == 0x05 {
            PacketId::ConnectionRequest1
        } else if num == 0x06 {
            PacketId::ConnectionReply1
        } else if num == 0x07 {
            PacketId::ConnectionRequest2
        } else if num == 0x08 {
            PacketId::ConnectionReply2
        } else if num == 0x09 {
            PacketId::ConnectionRequest
        } else if num == 0x10 {
            PacketId::ConnectionRequestAccepted
        } else if num == 0x19 {
            PacketId::IncompatibleProtocolVersion
        } else {
            PacketId::Unknown
        }
    }
}

impl vstd::std_specs::convert::FromSpecImpl<u8> for PacketId {
    open spec fn obeys_from_spec() -> bool {
        true
    }

    open spec fn from_spec(num: u8) -> PacketId {
        spec_packet_id_from(num)
    }
}

/// A known identifier's byte classifies back to that identifier, and the
/// sentinel byte classifies to `Unknown`.
pub proof fn lemma_packet_id_round_trip(id: PacketId)
    ensures
        spec_packet_id_from(spec_packet_id_byte(id)) == id,
{
}

} // verus!
